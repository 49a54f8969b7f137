use vstd::prelude::*;
use crate::ini::chars_eq;
use crate::text::chars_of;
use crate::types::UpdateCheckResponse;

verus! {

/// The answer to a release check: the latest version that the release service
/// named (`0.0.0` where it named none), whether it differs from the installed
/// `current` one, and the download address it gave.
pub fn update_check(current: &str, latest: Option<String>, url: Option<String>) -> (r:
    UpdateCheckResponse)
    ensures
        r.version@ == (match latest {
            Some(v) => v@,
            None => "0.0.0"@,
        }),
        r.update_available == (current@ != r.version@),
        r.url == url,
{
    let version = match latest {
        Some(v) => v,
        None => String::from_str("0.0.0"),
    };
    let a = chars_of(current);
    let b = chars_of(version.as_str());
    let same = chars_eq(a.as_slice(), b.as_slice());
    UpdateCheckResponse { update_available: !same, version, url }
}

} // verus!
