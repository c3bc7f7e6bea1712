//! Application settings kept in `config.json`, and the rules that read and
//! change them.

pub mod embedded;

use vstd::prelude::*;
use vstd::utf8::{decode_utf8, encode_utf8, is_char_boundary};
use crate::text::{concat2, owned, path_join, spec_path_join, spec_trim, trim};

verus! {

#[derive(Debug, Clone)]
pub struct AppConfig {
    pub google_client_id: Option<String>,
    pub google_client_secret: Option<String>,
    pub vault_path: Option<String>,
    pub wizard_completed_at: Option<String>,
    pub wizard_skipped: bool,
}

impl Default for AppConfig {
    fn default() -> (r: AppConfig)
        ensures
            r.google_client_id is None,
            r.google_client_secret is None,
            r.vault_path is None,
            r.wizard_completed_at is None,
            !r.wizard_skipped,
    {
        AppConfig {
            google_client_id: None,
            google_client_secret: None,
            vault_path: None,
            wizard_completed_at: None,
            wizard_skipped: false,
        }
    }
}

/// Whether an optional setting holds text that is not blank once trimmed.
pub open spec fn filled(v: Option<String>) -> bool {
    v matches Some(s) && spec_trim(s@).len() > 0
}

/// The setting to use: the configured value (trimmed) when it is filled, else
/// the environment's value when that is filled (kept as it is).
pub open spec fn configured_or_env(cfg: Option<String>, env: Option<String>) -> Option<Seq<char>> {
    if filled(cfg) {
        Some(spec_trim(cfg->0@))
    } else if filled(env) {
        Some(env->0@)
    } else {
        None
    }
}

/// The view of an optional string.
pub open spec fn opt_view(v: Option<String>) -> Option<Seq<char>> {
    match v {
        Some(s) => Some(s@),
        None => None,
    }
}

fn is_filled(v: &Option<String>) -> (r: bool)
    ensures
        r == filled(*v),
{
    match v {
        Some(s) => !trim(s.as_str()).is_empty(),
        None => false,
    }
}

fn pick_setting(cfg: &Option<String>, env: Option<String>) -> (r: Option<String>)
    ensures
        opt_view(r) == configured_or_env(*cfg, env),
{
    if let Some(v) = cfg {
        let t = trim(v.as_str());
        if !t.is_empty() {
            return Some(owned(t));
        }
    }
    if is_filled(&env) {
        env
    } else {
        None
    }
}

impl AppConfig {
    pub fn config_path(data_dir: &str) -> (r: String)
        ensures
            r@ == spec_path_join(data_dir@, "config.json"@),
    {
        path_join(data_dir, "config.json")
    }

    pub fn has_google_credentials(&self) -> (r: bool)
        ensures
            r == (filled(self.google_client_id) && filled(self.google_client_secret)),
    {
        is_filled(&self.google_client_id) && is_filled(&self.google_client_secret)
    }

    /// The OAuth client id: the configured one, else `env_value` (the
    /// `GOOGLE_CLIENT_ID` environment variable).
    pub fn google_client_id(&self, env_value: Option<String>) -> (r: Option<String>)
        ensures
            opt_view(r) == configured_or_env(self.google_client_id, env_value),
    {
        pick_setting(&self.google_client_id, env_value)
    }

    /// The OAuth client secret: the configured one, else `env_value` (the
    /// `GOOGLE_CLIENT_SECRET` environment variable).
    pub fn google_client_secret(&self, env_value: Option<String>) -> (r: Option<String>)
        ensures
            opt_view(r) == configured_or_env(self.google_client_secret, env_value),
    {
        pick_setting(&self.google_client_secret, env_value)
    }

    pub fn wizard_done(&self) -> (r: bool)
        ensures
            r == (self.wizard_completed_at is Some || self.wizard_skipped),
    {
        self.wizard_completed_at.is_some() || self.wizard_skipped
    }
}

#[derive(Debug)]
pub struct GoogleOAuthConfigStatus {
    pub configured: bool,
    pub client_id_preview: Option<String>,
    pub source: String,
}

/// A client id as shown to the user: its first 12 bytes and `…` when it is
/// longer than 12 bytes, else all of it.
pub open spec fn id_preview(id: Seq<char>) -> Seq<char> {
    if encode_utf8(id).len() > 12 {
        decode_utf8(encode_utf8(id).take(12)) + "…"@
    } else {
        id
    }
}

/// Whether the 12-byte cut of an id falls between characters (the cut is only
/// made on ids longer than 12 bytes), for an id whose byte length fits in `usize`.
pub open spec fn previewable(id: Seq<char>) -> bool {
    &&& encode_utf8(id).len() <= usize::MAX
    &&& encode_utf8(id).len() > 12 ==> is_char_boundary(encode_utf8(id), 12)
}

/// Whether an environment value counts as set (it is present and not empty).
pub open spec fn env_set(v: Option<String>) -> bool {
    v matches Some(s) && s@.len() > 0
}

fn preview(id: &str) -> (r: String)
    requires
        previewable(id@),
    ensures
        r@ == id_preview(id@),
{
    proof {
        vstd::utf8::encode_utf8_decode_utf8(id@);
    }
    if id.len() > 12 {
        let (head, _tail) = id.split_at(12);
        proof {
            vstd::utf8::encode_utf8_decode_utf8(head@);
            assert(encode_utf8(head@) =~= encode_utf8(id@).take(12));
        }
        concat2(head, "…")
    } else {
        owned(id)
    }
}

/// Where the OAuth client comes from: `config.json` when it holds both values,
/// else the environment (`env_id` and `env_secret` are `GOOGLE_CLIENT_ID` and
/// `GOOGLE_CLIENT_SECRET`), else nowhere.
pub fn get_google_oauth_status(
    cfg: &AppConfig,
    env_id: Option<String>,
    env_secret: Option<String>,
) -> (r: GoogleOAuthConfigStatus)
    requires
        cfg.has_google_credentials_spec() ==> previewable(cfg.google_client_id->0@),
        !cfg.has_google_credentials_spec() && env_set(env_id) && env_set(env_secret) ==> previewable(env_id->0@),
    ensures
        cfg.has_google_credentials_spec() ==> {
            &&& r.configured
            &&& r.source@ == "config"@
            &&& r.client_id_preview matches Some(p) && p@ == id_preview(cfg.google_client_id->0@)
        },
        !cfg.has_google_credentials_spec() && env_set(env_id) && env_set(env_secret) ==> {
            &&& r.configured
            &&& r.source@ == "env"@
            &&& r.client_id_preview matches Some(p) && p@ == id_preview(env_id->0@)
        },
        !cfg.has_google_credentials_spec() && !(env_set(env_id) && env_set(env_secret)) ==> {
            &&& !r.configured
            &&& r.source@ == "none"@
            &&& r.client_id_preview is None
        },
{
    if cfg.has_google_credentials() {
        let p = match &cfg.google_client_id {
            Some(id) => Some(preview(id.as_str())),
            None => None,
        };
        return GoogleOAuthConfigStatus {
            configured: true,
            client_id_preview: p,
            source: owned("config"),
        };
    }
    let id_set = match &env_id {
        Some(s) => !s.as_str().is_empty(),
        None => false,
    };
    let secret_set = match &env_secret {
        Some(s) => !s.as_str().is_empty(),
        None => false,
    };
    if id_set && secret_set {
        let p = match &env_id {
            Some(id) => Some(preview(id.as_str())),
            None => None,
        };
        return GoogleOAuthConfigStatus {
            configured: true,
            client_id_preview: p,
            source: owned("env"),
        };
    }
    GoogleOAuthConfigStatus { configured: false, client_id_preview: None, source: owned("none") }
}

impl AppConfig {
    pub open spec fn has_google_credentials_spec(&self) -> bool {
        filled(self.google_client_id) && filled(self.google_client_secret)
    }
}

/// The settings after the wizard finished: skipped (an earlier completion
/// time is kept), or completed at `now`.
pub open spec fn wizard_completed(c: AppConfig, skipped: bool, now: String) -> AppConfig {
    if skipped {
        AppConfig { wizard_skipped: true, ..c }
    } else {
        AppConfig { wizard_completed_at: Some(now), wizard_skipped: false, ..c }
    }
}

/// The settings after the wizard was reset.
pub open spec fn wizard_reset(c: AppConfig) -> AppConfig {
    AppConfig { wizard_completed_at: None, wizard_skipped: false, ..c }
}

/// The settings with the vault folder recorded.
pub open spec fn vault_recorded(c: AppConfig, path: String) -> AppConfig {
    AppConfig { vault_path: Some(path), ..c }
}

/// Whether `after` holds the OAuth client (trimmed) and otherwise the settings of `before`.
pub open spec fn credentials_stored(before: AppConfig, after: AppConfig, client_id: Seq<char>, client_secret: Seq<char>) -> bool {
    &&& after.google_client_id matches Some(id) && id@ == spec_trim(client_id)
    &&& after.google_client_secret matches Some(s) && s@ == spec_trim(client_secret)
    &&& after.vault_path == before.vault_path
    &&& after.wizard_completed_at == before.wizard_completed_at
    &&& after.wizard_skipped == before.wizard_skipped
}

/// Stores an OAuth client, trimmed.
pub fn save_google_credentials(cfg: &mut AppConfig, client_id: String, client_secret: String)
    ensures
        credentials_stored(*old(cfg), *final(cfg), client_id@, client_secret@),
{
    cfg.google_client_id = Some(owned(trim(client_id.as_str())));
    cfg.google_client_secret = Some(owned(trim(client_secret.as_str())));
}

/// Records the vault folder.
pub fn set_vault_path(cfg: &mut AppConfig, path: String)
    ensures
        *final(cfg) == vault_recorded(*old(cfg), path),
{
    cfg.vault_path = Some(path);
}

/// Marks the setup wizard finished: skipped, or completed at `now`.
pub fn complete_wizard(cfg: &mut AppConfig, skipped: bool, now: String)
    ensures
        *final(cfg) == wizard_completed(*old(cfg), skipped, now),
{
    if skipped {
        cfg.wizard_skipped = true;
    } else {
        cfg.wizard_completed_at = Some(now);
        cfg.wizard_skipped = false;
    }
}

/// Clears the wizard's completion so that it runs again.
pub fn reset_wizard(cfg: &mut AppConfig)
    ensures
        *final(cfg) == wizard_reset(*old(cfg)),
{
    cfg.wizard_completed_at = None;
    cfg.wizard_skipped = false;
}

/// Finishing the wizard, skipped or not, makes it count as done; resetting it
/// afterwards makes it count as not done; neither touches the vault folder or
/// the OAuth client; and recording the vault folder leaves the wizard as it was.
pub proof fn law_wizard_complete_then_reset(c: AppConfig, skipped: bool, now: String, path: String)
    ensures
        wizard_completed(c, skipped, now).wizard_completed_at is Some || wizard_completed(c, skipped, now).wizard_skipped,
        !(wizard_reset(wizard_completed(c, skipped, now)).wizard_completed_at is Some
            || wizard_reset(wizard_completed(c, skipped, now)).wizard_skipped),
        wizard_reset(wizard_completed(c, skipped, now)).vault_path == c.vault_path,
        wizard_reset(wizard_completed(c, skipped, now)).google_client_id == c.google_client_id,
        wizard_reset(wizard_completed(c, skipped, now)).google_client_secret == c.google_client_secret,
        vault_recorded(c, path).wizard_completed_at == c.wizard_completed_at,
        vault_recorded(c, path).wizard_skipped == c.wizard_skipped,
{
}

} // verus!
