//! The OAuth client built into release builds.

use vstd::prelude::*;
use crate::text::{owned, spec_trim, trim};

verus! {

/// The built-in OAuth client as read from the bundled defaults file.
#[derive(Debug, Clone)]
pub struct OAuthDefaults {
    pub google_client_id: String,
    pub google_client_secret: String,
}

/// A built-in value, trimmed, when it is not blank.
pub open spec fn builtin_value(raw: Seq<char>) -> Option<Seq<char>> {
    if spec_trim(raw).len() == 0 {
        None
    } else {
        Some(spec_trim(raw))
    }
}

fn nonblank(raw: &str) -> (r: Option<String>)
    ensures
        r matches Some(s) ==> builtin_value(raw@) == Some(s@),
        r is None ==> builtin_value(raw@) is None,
{
    let t = trim(raw);
    if t.is_empty() {
        None
    } else {
        Some(owned(t))
    }
}

pub fn client_id(defaults: &OAuthDefaults) -> (r: Option<String>)
    ensures
        r matches Some(s) ==> builtin_value(defaults.google_client_id@) == Some(s@),
        r is None ==> builtin_value(defaults.google_client_id@) is None,
{
    nonblank(defaults.google_client_id.as_str())
}

pub fn client_secret(defaults: &OAuthDefaults) -> (r: Option<String>)
    ensures
        r matches Some(s) ==> builtin_value(defaults.google_client_secret@) == Some(s@),
        r is None ==> builtin_value(defaults.google_client_secret@) is None,
{
    nonblank(defaults.google_client_secret.as_str())
}

pub fn has_credentials(defaults: &OAuthDefaults) -> (r: bool)
    ensures
        r == (builtin_value(defaults.google_client_id@) is Some && builtin_value(
            defaults.google_client_secret@,
        ) is Some),
{
    client_id(defaults).is_some() && client_secret(defaults).is_some()
}

} // verus!
