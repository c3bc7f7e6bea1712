//! Google account connection: granted scopes, token freshness, the OAuth
//! callback, storage numbers and moving verified duplicates to Drive Trash.

use vstd::prelude::*;
use crate::scanner::{parse_rfc3339, spec_rfc3339};
use crate::text::{
    is_white_space, is_white_space_char, push_char,
    concat2, concat3, owned, parse_i64, parse_i64_spec, parse_u64, parse_u64_spec, split_char, split_spec, starts_with,
    has_prefix, str_eq, strings_match, u64_to_decimal, decimal,
};

verus! {

pub const PROVIDER: &'static str = "google_drive";
pub const READONLY_SCOPE: &'static str = "https://www.googleapis.com/auth/drive.readonly";
pub const PHOTOS_SCOPE: &'static str = "https://www.googleapis.com/auth/photoslibrary.readonly";
pub const GMAIL_SCOPE: &'static str = "https://www.googleapis.com/auth/gmail.readonly";
pub const DRIVE_FULL_SCOPE: &'static str = "https://www.googleapis.com/auth/drive";

/// Scopes requested on normal Google sign-in (read-only everywhere).
pub const READ_SCOPES: &'static str = "https://www.googleapis.com/auth/drive.readonly https://www.googleapis.com/auth/photoslibrary.readonly https://www.googleapis.com/auth/gmail.readonly";

/// Additional scope when user enables Google Drive cleanup (move to Trash).
pub const CLEANUP_SCOPES: &'static str = "https://www.googleapis.com/auth/drive.readonly https://www.googleapis.com/auth/photoslibrary.readonly https://www.googleapis.com/auth/gmail.readonly https://www.googleapis.com/auth/drive";

pub const WRITE_SCOPE_URL: &'static str = "https://www.googleapis.com/auth/drive";

#[derive(Debug, Clone)]
pub struct DriveAuthStatus {
    pub connected: bool,
    pub email: Option<String>,
    pub scopes: Vec<String>,
    pub cleanup_enabled: bool,
    pub photos_enabled: bool,
    pub gmail_enabled: bool,
}

impl DriveAuthStatus {
    pub fn write_enabled(&self) -> (r: bool)
        ensures
            r == self.cleanup_enabled,
    {
        self.cleanup_enabled
    }
}

/// The words of a text, as `str::split_whitespace` yields them: its longest
/// runs of characters without white space, in order.
pub open spec fn spec_split_whitespace(s: Seq<char>) -> Seq<Seq<char>>
    decreases s.len(),
{
    if s.len() == 0 {
        Seq::empty()
    } else {
        let prev = spec_split_whitespace(s.drop_last());
        let c = s.last();
        if is_white_space(c) {
            prev
        } else if s.len() >= 2 && !is_white_space(s[s.len() - 2]) && prev.len() > 0 {
            prev.drop_last().push(prev.last().push(c))
        } else {
            prev.push(seq![c])
        }
    }
}

/// The words of a text (as `str::split_whitespace` yields them), as owned strings.
fn split_whitespace(s: &str) -> (r: Vec<String>)
    ensures
        strings_match(r@, spec_split_whitespace(s@)),
{
    let cs = crate::text::chars_of(s);
    let mut out: Vec<String> = Vec::new();
    let mut i: usize = 0;
    assert(s@.take(0) =~= Seq::<char>::empty());
    while i < cs.len()
        invariant
            cs@ == s@,
            i <= cs@.len(),
            strings_match(out@, spec_split_whitespace(s@.take(i as int))),
        decreases cs.len() - i,
    {
        let c = cs[i];
        let ghost t = s@.take(i + 1);
        let ghost prev = spec_split_whitespace(s@.take(i as int));
        assert(t.drop_last() =~= s@.take(i as int));
        assert(t.last() == c);
        if is_white_space_char(c) {
        } else if i >= 1 && !is_white_space_char(cs[i - 1]) && out.len() > 0 {
            assert(t[t.len() - 2] == s@[i - 1]);
            let ghost before = out@;
            let mut w = out.pop().unwrap();
            push_char(&mut w, c);
            out.push(w);
            proof {
                let expect = prev.drop_last().push(prev.last().push(c));
                assert(spec_split_whitespace(t) == expect);
                assert forall|k: int| 0 <= k < out@.len() implies #[trigger] out@[k]@ == expect[k] by {
                    if k < out@.len() - 1 {
                        assert(out@[k] == before[k]);
                    }
                }
            }
        } else {
            proof {
                if i >= 1 {
                    assert(t[t.len() - 2] == s@[i - 1]);
                }
            }
            let mut w = String::new();
            push_char(&mut w, c);
            assert(w@ =~= seq![c]);
            out.push(w);
        }
        i += 1;
    }
    assert(s@.take(cs@.len() as int) =~= s@);
    out
}

/// Whether a scope list holds `scope`.
pub open spec fn lists_scope(scopes: Seq<Seq<char>>, scope: Seq<char>) -> bool {
    exists|k: int| 0 <= k < scopes.len() && scopes[k] == scope
}

fn contains_scope(scopes: &Vec<String>, scope: &str) -> (r: bool)
    ensures
        r == exists|k: int| 0 <= k < scopes@.len() && (#[trigger] scopes@[k])@ == scope@,
{
    let mut i: usize = 0;
    while i < scopes.len()
        invariant
            i <= scopes@.len(),
            forall|k: int| 0 <= k < i ==> (#[trigger] scopes@[k])@ != scope@,
        decreases scopes.len() - i,
    {
        if str_eq(scopes[i].as_str(), scope) {
            return true;
        }
        i += 1;
    }
    false
}

/// Whether the stored grant includes `scope`; `stored` is the saved scope text,
/// absent when no Google account is connected.
pub fn has_scope(stored: &Option<String>, scope: &str) -> (r: Result<bool, String>)
    ensures
        match stored {
            Some(s) => r matches Ok(b) && b == lists_scope(spec_split_whitespace(s@), scope@),
            None => r matches Err(e) && e@ == "Google account not connected"@,
        },
{
    match stored {
        Some(s) => {
            let list = split_whitespace(s.as_str());
            let found = contains_scope(&list, scope);
            proof {
                let sp = spec_split_whitespace(s@);
                if found {
                    let k = choose|k: int| 0 <= k < list@.len() && (#[trigger] list@[k])@ == scope@;
                    assert(sp[k] == scope@);
                }
                if lists_scope(sp, scope@) {
                    let k = choose|k: int| 0 <= k < sp.len() && sp[k] == scope@;
                    assert(list@[k]@ == scope@);
                }
            }
            Ok(found)
        },
        None => Err(owned("Google account not connected")),
    }
}

/// The connection status for a stored token (`token_data`: access token and
/// scope text) and the account's e-mail address, when it could be fetched.
pub fn auth_status_from(token_data: Option<(String, String)>, email: Option<String>) -> (r: DriveAuthStatus)
    ensures
        match token_data {
            None => !r.connected && r.email is None && r.scopes@.len() == 0 && !r.cleanup_enabled && !r.photos_enabled && !r.gmail_enabled,
            Some((_t, scopes)) => {
                let list = spec_split_whitespace(scopes@);
                &&& r.connected
                &&& r.email == email
                &&& strings_match(r.scopes@, list)
                &&& r.cleanup_enabled == lists_scope(list, DRIVE_FULL_SCOPE@)
                &&& r.photos_enabled == lists_scope(list, PHOTOS_SCOPE@)
                &&& r.gmail_enabled == lists_scope(list, GMAIL_SCOPE@)
            },
        },
{
    match token_data {
        None => DriveAuthStatus {
            connected: false,
            email: None,
            scopes: Vec::new(),
            cleanup_enabled: false,
            photos_enabled: false,
            gmail_enabled: false,
        },
        Some((_token, scopes)) => {
            let stored = Some(scopes);
            let cleanup = has_scope(&stored, DRIVE_FULL_SCOPE);
            let photos = has_scope(&stored, PHOTOS_SCOPE);
            let gmail = has_scope(&stored, GMAIL_SCOPE);
            let list = match &stored {
                Some(s) => split_whitespace(s.as_str()),
                None => Vec::new(),
            };
            DriveAuthStatus {
                connected: true,
                email,
                scopes: list,
                cleanup_enabled: match cleanup {
                    Ok(b) => b,
                    Err(_) => false,
                },
                photos_enabled: match photos {
                    Ok(b) => b,
                    Err(_) => false,
                },
                gmail_enabled: match gmail {
                    Ok(b) => b,
                    Err(_) => false,
                },
            }
        },
    }
}

/// Whether an access token must be refreshed: it expires within two minutes of
/// `now` (seconds and nanoseconds since the epoch). A token without an
/// expiry, or with one that does not parse, is used as it is.
pub open spec fn needs_refresh_spec(expires_at: Option<Seq<char>>, now_secs: i64, now_nanos: u32) -> bool {
    match expires_at {
        Some(e) => match spec_rfc3339(e) {
            Some((s, n, _utc)) => now_secs + 120 > s || (now_secs + 120 == s && now_nanos > n),
            None => false,
        },
        None => false,
    }
}

pub fn needs_refresh(expires_at: &Option<String>, now_secs: i64, now_nanos: u32) -> (r: bool)
    requires
        now_secs <= i64::MAX - 120,
    ensures
        r == needs_refresh_spec(match expires_at { Some(e) => Some(e@), None => None }, now_secs, now_nanos),
{
    match expires_at {
        Some(e) => match parse_rfc3339(e.as_str()) {
            Some((s, n, _utc)) => now_secs + 120 > s || (now_secs + 120 == s && now_nanos > n),
            None => false,
        },
        None => false,
    }
}

/// What to do with the stored token.
#[derive(Debug)]
pub enum TokenAction {
    /// The stored access token is still good.
    UseStored,
    /// Ask Google for a new access token with this refresh token.
    Refresh(String),
}

pub open spec fn session_expired_message() -> Seq<char> {
    "Session expired — please connect Google again"@
}

/// Decides how to get a valid access token.
pub fn token_action(needs_refresh: bool, refresh_token: Option<String>) -> (r: Result<TokenAction, String>)
    ensures
        !needs_refresh ==> r matches Ok(TokenAction::UseStored),
        needs_refresh ==> match refresh_token {
            Some(t) => r matches Ok(TokenAction::Refresh(x)) && x == t,
            None => r matches Err(e) && e@ == session_expired_message(),
        },
{
    if !needs_refresh {
        return Ok(TokenAction::UseStored);
    }
    match refresh_token {
        Some(t) => Ok(TokenAction::Refresh(t)),
        None => Err(owned("Session expired — please connect Google again")),
    }
}

/// The OAuth callback address on this machine.
pub open spec fn redirect_uri_spec(port: u16) -> Seq<char> {
    "http://127.0.0.1:"@ + decimal(port as nat) + "/oauth/callback"@
}

pub fn redirect_uri(port: u16) -> (r: String)
    ensures
        r@ == redirect_uri_spec(port),
{
    let p = u64_to_decimal(port as u64);
    concat3("http://127.0.0.1:", p.as_str(), "/oauth/callback")
}

/// The callback port: the `DEDUPER_OAUTH_PORT` setting when it is a valid
/// port number, else 8888.
pub open spec fn oauth_port_spec(setting: Option<Seq<char>>) -> u16 {
    match setting {
        Some(s) => match parse_u64_spec(s) {
            Some(n) => if n <= 65535 {
                n as u16
            } else {
                8888
            },
            None => 8888,
        },
        None => 8888,
    }
}

pub fn oauth_port(setting: &Option<String>) -> (r: u16)
    ensures
        r == oauth_port_spec(match setting { Some(s) => Some(s@), None => None }),
{
    match setting {
        Some(s) => match parse_u64(s.as_str()) {
            Some(n) => if n <= 65535 {
                n as u16
            } else {
                8888
            },
            None => 8888,
        },
        None => 8888,
    }
}

/// The first key of a form-encoded text, decoded (`+` as space, `%XX` escapes,
/// invalid UTF-8 replaced), as `form_urlencoded::parse` yields it.
pub uninterp spec fn spec_form_first_key(s: Seq<char>) -> Option<Seq<char>>;

/// `form_urlencoded::parse(s.as_bytes()).next()`'s key.
#[verifier::external_body]
fn form_first_key(s: &str) -> (r: Option<String>)
    ensures
        match r {
            Some(k) => spec_form_first_key(s@) == Some(k@),
            None => spec_form_first_key(s@) is None,
        },
{
    url::form_urlencoded::parse(s.as_bytes()).next().map(|(k, _)| k.into_owned())
}

/// A URL-encoded value decoded, or kept as it is when decoding yields nothing.
pub open spec fn decoded_component(s: Seq<char>) -> Seq<char> {
    match spec_form_first_key(s) {
        Some(k) => k,
        None => s,
    }
}

pub fn decode_url_component(s: &str) -> (r: String)
    ensures
        r@ == decoded_component(s@),
{
    match form_first_key(s) {
        Some(k) => k,
        None => owned(s),
    }
}

/// What one request to the OAuth callback server carries.
#[derive(Debug)]
pub enum CallbackResult {
    /// The authorization code.
    Code(String),
    /// Google reported an error: the message to give.
    Denied(String),
    /// Neither: keep waiting.
    Waiting,
}

/// What a callback request URL carries: in the text after its first `?`, the
/// first `&`-separated pair that is a `code=` (decoded) or an `error=` pair.
pub open spec fn callback_spec(url: Seq<char>) -> CallbackOutcome {
    let pieces = split_spec(url, '?');
    if pieces.len() < 2 {
        CallbackOutcome::Waiting
    } else {
        first_callback_pair(split_spec(pieces[1], '&'))
    }
}

/// The spec-side outcome of a callback request.
pub enum CallbackOutcome {
    Code(Seq<char>),
    Denied(Seq<char>),
    Waiting,
}

pub open spec fn first_callback_pair(pairs: Seq<Seq<char>>) -> CallbackOutcome
    decreases pairs.len(),
{
    if pairs.len() == 0 {
        CallbackOutcome::Waiting
    } else if has_prefix(pairs[0], "code="@) {
        CallbackOutcome::Code(decoded_component(pairs[0].skip(5)))
    } else if has_prefix(pairs[0], "error="@) {
        CallbackOutcome::Denied("OAuth denied: "@ + pairs[0])
    } else {
        first_callback_pair(pairs.drop_first())
    }
}

pub open spec fn callback_matches(r: CallbackResult, o: CallbackOutcome) -> bool {
    match (r, o) {
        (CallbackResult::Code(c), CallbackOutcome::Code(s)) => c@ == s,
        (CallbackResult::Denied(c), CallbackOutcome::Denied(s)) => c@ == s,
        (CallbackResult::Waiting, CallbackOutcome::Waiting) => true,
        _ => false,
    }
}

/// Reads the authorization code (or Google's refusal) from a callback request URL.
pub fn parse_callback(url: &str) -> (r: CallbackResult)
    ensures
        callback_matches(r, callback_spec(url@)),
{
    let pieces = split_char(url, '?');
    if pieces.len() < 2 {
        return CallbackResult::Waiting;
    }
    let pairs = split_char(pieces[1].as_str(), '&');
    let ghost sp = split_spec(pieces@[1]@, '&');
    assert(sp.skip(0) =~= sp);
    assert(callback_spec(url@) == first_callback_pair(sp));
    proof {
        reveal_strlit("code=");
        reveal_strlit("error=");
    }
    let mut i: usize = 0;
    while i < pairs.len()
        invariant
            strings_match(pairs@, sp),
            i <= pairs@.len(),
            first_callback_pair(sp) == first_callback_pair(sp.skip(i as int)),
            callback_spec(url@) == first_callback_pair(sp),
        decreases pairs.len() - i,
    {
        let pair = pairs[i].as_str();
        assert(pairs@[i as int]@ == sp[i as int]);
        assert(sp.skip(i as int)[0] == sp[i as int]);
        assert(sp.skip(i as int).drop_first() =~= sp.skip(i + 1));
        proof {
            reveal_strlit("code=");
            reveal_strlit("error=");
        }
        if starts_with(pair, "code=") {
            let cs = crate::text::chars_of(pair);
            assert(cs@.len() >= 5);
            let rest = crate::text::string_from_range(&cs, 5, cs.len());
            assert(rest@ =~= sp[i as int].skip(5));
            return CallbackResult::Code(decode_url_component(rest.as_str()));
        }
        if starts_with(pair, "error=") {
            return CallbackResult::Denied(concat2("OAuth denied: ", pair));
        }
        i += 1;
    }
    assert(sp.skip(i as int) =~= Seq::<Seq<char>>::empty());
    CallbackResult::Waiting
}

} // verus!

verus! {

/// What happened to one Trash candidate.
#[derive(Debug, Clone, Copy, PartialEq, Eq, Structural)]
pub enum TrashOutcome {
    /// Counted without calling Google (dry run).
    DryRun,
    /// Google moved the file to Trash.
    Trashed,
    /// Google no longer has the file.
    NotFound,
    /// Any other answer.
    Failed,
}

/// The outcome for Google's HTTP answer to a move to Trash: 2xx moved it, 404
/// means it is gone, anything else failed.
pub open spec fn outcome_of_status(status: u16) -> TrashOutcome {
    if 200 <= status <= 299 {
        TrashOutcome::Trashed
    } else if status == 404 {
        TrashOutcome::NotFound
    } else {
        TrashOutcome::Failed
    }
}

pub fn trash_outcome(status: u16) -> (r: TrashOutcome)
    ensures
        r == outcome_of_status(status),
{
    if 200 <= status && status <= 299 {
        TrashOutcome::Trashed
    } else if status == 404 {
        TrashOutcome::NotFound
    } else {
        TrashOutcome::Failed
    }
}

/// Counts of a move to Trash.
#[derive(Debug, Clone, Copy)]
pub struct TrashTally {
    pub trashed_count: i64,
    pub skipped_count: i64,
    pub failed_count: i64,
    pub bytes_freed: i64,
}

/// Whether a file's outcome frees its bytes (dry runs count as if it did).
pub open spec fn frees(o: TrashOutcome) -> bool {
    o == TrashOutcome::DryRun || o == TrashOutcome::Trashed
}

impl TrashTally {
    pub fn new() -> (r: Self)
        ensures
            r.trashed_count == 0 && r.skipped_count == 0 && r.failed_count == 0 && r.bytes_freed == 0,
    {
        TrashTally { trashed_count: 0, skipped_count: 0, failed_count: 0, bytes_freed: 0 }
    }

    /// Adds one file of `size` bytes with its outcome.
    pub fn record(&mut self, outcome: TrashOutcome, size: i64)
        requires
            old(self).trashed_count < i64::MAX,
            old(self).skipped_count < i64::MAX,
            old(self).failed_count < i64::MAX,
            frees(outcome) ==> i64::MIN <= old(self).bytes_freed + size <= i64::MAX,
        ensures
            *final(self) == tally_step(*old(self), outcome, size),
            final(self).trashed_count == old(self).trashed_count + if frees(outcome) { 1int } else { 0int },
            final(self).bytes_freed == old(self).bytes_freed + if frees(outcome) { size as int } else { 0int },
            final(self).skipped_count == old(self).skipped_count + if outcome == TrashOutcome::NotFound { 1int } else { 0int },
            final(self).failed_count == old(self).failed_count + if outcome == TrashOutcome::Failed { 1int } else { 0int },
    {
        match outcome {
            TrashOutcome::DryRun | TrashOutcome::Trashed => {
                self.trashed_count = self.trashed_count + 1;
                self.bytes_freed = self.bytes_freed + size;
            },
            TrashOutcome::NotFound => {
                self.skipped_count = self.skipped_count + 1;
            },
            TrashOutcome::Failed => {
                self.failed_count = self.failed_count + 1;
            },
        }
    }
}

/// The counts after one more file of `size` bytes with this outcome.
pub open spec fn tally_step(t: TrashTally, outcome: TrashOutcome, size: i64) -> TrashTally {
    TrashTally {
        trashed_count: if frees(outcome) { (t.trashed_count + 1) as i64 } else { t.trashed_count },
        bytes_freed: if frees(outcome) { (t.bytes_freed + size) as i64 } else { t.bytes_freed },
        skipped_count: if outcome == TrashOutcome::NotFound { (t.skipped_count + 1) as i64 } else { t.skipped_count },
        failed_count: if outcome == TrashOutcome::Failed { (t.failed_count + 1) as i64 } else { t.failed_count },
    }
}

/// The counts after files of these sizes, all with the same outcome.
pub open spec fn tally_all(t: TrashTally, outcome: TrashOutcome, sizes: Seq<i64>) -> TrashTally
    decreases sizes.len(),
{
    if sizes.len() == 0 {
        t
    } else {
        tally_step(tally_all(t, outcome, sizes.drop_last()), outcome, sizes.last())
    }
}

/// A preview changes nothing yet reports exactly what a real move reports when
/// Google moves every candidate to Trash: the same count and the same bytes freed.
pub proof fn law_preview_matches_full_success(t: TrashTally, sizes: Seq<i64>)
    ensures
        tally_all(t, TrashOutcome::DryRun, sizes) == tally_all(t, TrashOutcome::Trashed, sizes),
    decreases sizes.len(),
{
    if sizes.len() > 0 {
        law_preview_matches_full_success(t, sizes.drop_last());
    }
}

pub open spec fn no_cleanup_permission_message() -> Seq<char> {
    "Cleanup permission not granted. Click \"Enable Google Drive cleanup\" and sign in again."@
}

pub open spec fn nothing_to_move_message() -> Seq<char> {
    "Nothing to move — run a full check first. Only files already saved on your PC or phone can be moved to Trash."@
}

/// Moving to Trash needs the full Drive scope.
pub fn check_cleanup_permission(has_full_scope: bool) -> (r: Result<(), String>)
    ensures
        has_full_scope ==> r is Ok,
        !has_full_scope ==> (r matches Err(e) && e@ == no_cleanup_permission_message()),
{
    if has_full_scope {
        Ok(())
    } else {
        Err(owned("Cleanup permission not granted. Click \"Enable Google Drive cleanup\" and sign in again."))
    }
}

/// Moving to Trash needs at least one verified candidate.
pub fn check_candidates(count: usize) -> (r: Result<(), String>)
    ensures
        count > 0 ==> r is Ok,
        count == 0 ==> (r matches Err(e) && e@ == nothing_to_move_message()),
{
    if count > 0 {
        Ok(())
    } else {
        Err(owned("Nothing to move — run a full check first. Only files already saved on your PC or phone can be moved to Trash."))
    }
}

/// A storage number from Google, 0 when it is missing or not a number.
pub open spec fn quota_value(v: Option<Seq<char>>) -> i64 {
    match v {
        Some(s) => match parse_i64_spec(s) {
            Some(n) => n,
            None => 0,
        },
        None => 0,
    }
}

fn quota_value_of(v: &Option<String>) -> (r: i64)
    ensures
        r == quota_value(match v { Some(s) => Some(s@), None => None }),
{
    match v {
        Some(s) => match parse_i64(s.as_str()) {
            Some(n) => n,
            None => 0,
        },
        None => 0,
    }
}

/// Google storage numbers, in bytes.
#[derive(Debug, Clone, Copy)]
pub struct QuotaNumbers {
    pub limit_bytes: i64,
    pub usage_bytes: i64,
    pub usage_in_drive_bytes: i64,
    pub usage_in_trash_bytes: i64,
    pub free_bytes: i64,
}

/// Reads Google's storage numbers; free space is the limit minus the usage, at
/// least 0.
pub fn quota_numbers(
    limit: &Option<String>,
    usage: &Option<String>,
    usage_in_drive: &Option<String>,
    usage_in_trash: &Option<String>,
) -> (r: QuotaNumbers)
    requires
        i64::MIN <= quota_value(match limit { Some(s) => Some(s@), None => None }) - quota_value(match usage { Some(s) => Some(s@), None => None }) <= i64::MAX,
    ensures
        r.limit_bytes == quota_value(match limit { Some(s) => Some(s@), None => None }),
        r.usage_bytes == quota_value(match usage { Some(s) => Some(s@), None => None }),
        r.usage_in_drive_bytes == quota_value(match usage_in_drive { Some(s) => Some(s@), None => None }),
        r.usage_in_trash_bytes == quota_value(match usage_in_trash { Some(s) => Some(s@), None => None }),
        r.free_bytes == if r.limit_bytes - r.usage_bytes > 0 { r.limit_bytes - r.usage_bytes } else { 0 },
{
    let limit_bytes = quota_value_of(limit);
    let usage_bytes = quota_value_of(usage);
    let usage_in_drive_bytes = quota_value_of(usage_in_drive);
    let usage_in_trash_bytes = quota_value_of(usage_in_trash);
    let diff = limit_bytes - usage_bytes;
    let free_bytes = if diff > 0 { diff } else { 0 };
    QuotaNumbers { limit_bytes, usage_bytes, usage_in_drive_bytes, usage_in_trash_bytes, free_bytes }
}

/// The scopes to store after sign-in: those Google reports, else those requested.
pub fn granted_scopes(returned: &Option<String>, requested: &str) -> (r: String)
    ensures
        match returned {
            Some(s) => r@ == s@,
            None => r@ == requested@,
        },
{
    match returned {
        Some(s) => s.clone(),
        None => owned(requested),
    }
}

/// A URL with query pairs appended, as `url::Url::parse` and `query_pairs_mut`
/// write it (`None` when the base does not parse).
pub uninterp spec fn spec_url_with_query(base: Seq<char>, pairs: Seq<(Seq<char>, Seq<char>)>) -> Option<Seq<char>>;

/// The views of query pairs.
pub open spec fn pairs_view(pairs: Seq<(String, String)>) -> Seq<(Seq<char>, Seq<char>)> {
    Seq::new(pairs.len(), |i: int| (pairs[i].0@, pairs[i].1@))
}

/// `url::Url::parse(base)` with each pair appended by `query_pairs_mut().append_pair`.
#[verifier::external_body]
pub(crate) fn url_with_query(base: &str, pairs: &Vec<(String, String)>) -> (r: Option<String>)
    ensures
        match r {
            Some(u) => spec_url_with_query(base@, pairs_view(pairs@)) == Some(u@),
            None => spec_url_with_query(base@, pairs_view(pairs@)) is None,
        },
{
    let mut url = match url::Url::parse(base) {
        Ok(u) => u,
        Err(_) => return None,
    };
    url.query_pairs_mut().extend_pairs(pairs.iter().map(|(k, v)| (k.as_str(), v.as_str())));
    Some(url.to_string())
}

/// The query of Google's consent page: client, callback, code flow with PKCE
/// (S256), offline access and a fresh consent prompt.
pub open spec fn auth_params_spec(client_id: Seq<char>, redirect_uri: Seq<char>, scopes: Seq<char>, challenge: Seq<char>) -> Seq<(Seq<char>, Seq<char>)> {
    seq![
        ("client_id"@, client_id),
        ("redirect_uri"@, redirect_uri),
        ("response_type"@, "code"@),
        ("scope"@, scopes),
        ("code_challenge"@, challenge),
        ("code_challenge_method"@, "S256"@),
        ("access_type"@, "offline"@),
        ("prompt"@, "consent"@),
    ]
}

pub open spec fn auth_base() -> Seq<char> {
    "https://accounts.google.com/o/oauth2/v2/auth"@
}

/// The address of Google's consent page for this sign-in.
pub fn auth_url(client_id: &str, redirect_uri: &str, scopes: &str, challenge: &str) -> (r: Option<String>)
    ensures
        match r {
            Some(u) => spec_url_with_query(auth_base(), auth_params_spec(client_id@, redirect_uri@, scopes@, challenge@)) == Some(u@),
            None => spec_url_with_query(auth_base(), auth_params_spec(client_id@, redirect_uri@, scopes@, challenge@)) is None,
        },
{
    let mut pairs: Vec<(String, String)> = Vec::new();
    pairs.push((owned("client_id"), owned(client_id)));
    pairs.push((owned("redirect_uri"), owned(redirect_uri)));
    pairs.push((owned("response_type"), owned("code")));
    pairs.push((owned("scope"), owned(scopes)));
    pairs.push((owned("code_challenge"), owned(challenge)));
    pairs.push((owned("code_challenge_method"), owned("S256")));
    pairs.push((owned("access_type"), owned("offline")));
    pairs.push((owned("prompt"), owned("consent")));
    assert(pairs_view(pairs@) =~= auth_params_spec(client_id@, redirect_uri@, scopes@, challenge@));
    url_with_query("https://accounts.google.com/o/oauth2/v2/auth", &pairs)
}

/// The Google sources that a connected account provides: type and name.
pub open spec fn google_sources_spec() -> Seq<(Seq<char>, Seq<char>)> {
    seq![
        ("google_drive"@, "Google Drive"@),
        ("google_photos"@, "Google Photos"@),
        ("gmail_attachments"@, "Gmail large attachments"@),
    ]
}

pub fn google_sources() -> (r: Vec<(String, String)>)
    ensures
        pairs_view(r@) == google_sources_spec(),
{
    let mut r: Vec<(String, String)> = Vec::new();
    r.push((owned("google_drive"), owned("Google Drive")));
    r.push((owned("google_photos"), owned("Google Photos")));
    r.push((owned("gmail_attachments"), owned("Gmail large attachments")));
    assert(pairs_view(r@) =~= google_sources_spec());
    r
}

/// Whether a text uses only the URL-safe base64 alphabet: `A`–`Z`, `a`–`z`,
/// `0`–`9`, `-` and `_`.
pub open spec fn is_base64url(s: Seq<char>) -> bool {
    forall|i: int|
        0 <= i < s.len() ==> {
            let n = #[trigger] s[i] as u32;
            (65 <= n <= 90) || (97 <= n <= 122) || (48 <= n <= 57) || n == 45 || n == 95
        }
}

/// oauth2's `PkceCodeChallenge::new_random_sha256`: a fresh random PKCE
/// verifier (32 random bytes in unpadded URL-safe base64, so 43 characters)
/// and its S256 challenge (the verifier's SHA-256 in unpadded URL-safe base64,
/// also 43 characters). Given back as (challenge, verifier). The verifier is
/// random; that the challenge is the verifier's digest is not stated here.
#[verifier::external_body]
fn new_pkce() -> (r: (String, String))
    ensures
        r.0@.len() == 43,
        is_base64url(r.0@),
        r.1@.len() == 43,
        is_base64url(r.1@),
{
    let (challenge, verifier) = oauth2::PkceCodeChallenge::new_random_sha256();
    (challenge.as_str().to_string(), verifier.secret().to_string())
}

/// The start of a sign-in: the consent page's address for a fresh PKCE
/// challenge, and the challenge and verifier themselves.
#[derive(Debug)]
pub struct SignIn {
    pub url: Option<String>,
    pub challenge: String,
    pub verifier: String,
}

/// Starts a Google sign-in: draws a fresh PKCE pair and builds the consent
/// page's address around its challenge (S256), whatever pair is drawn.
pub fn begin_sign_in(client_id: &str, redirect_uri: &str, scopes: &str) -> (r: SignIn)
    ensures
        r.challenge@.len() == 43 && is_base64url(r.challenge@),
        r.verifier@.len() == 43 && is_base64url(r.verifier@),
        match r.url {
            Some(u) => spec_url_with_query(auth_base(), auth_params_spec(client_id@, redirect_uri@, scopes@, r.challenge@))
                == Some(u@),
            None => spec_url_with_query(auth_base(), auth_params_spec(client_id@, redirect_uri@, scopes@, r.challenge@))
                is None,
        },
{
    let (challenge, verifier) = new_pkce();
    let url = auth_url(client_id, redirect_uri, scopes, challenge.as_str());
    SignIn { url, challenge, verifier }
}

} // verus!
