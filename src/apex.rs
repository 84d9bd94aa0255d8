//! The apex domain that the bare root of a host redirects to.
use vstd::prelude::*;
use crate::text::{chars_of, string_of, push_all};

verus! {

/// The index of the first `.` in `s`, or its length when it has none.
pub open spec fn label_end(s: Seq<char>) -> int
    decreases s.len(),
{
    if s.len() == 0 || s[0] == '.' {
        0
    } else {
        1 + label_end(s.drop_first())
    }
}

/// What group 1 of `^[^.]+\.(.+)$` captures in `host`: everything after a
/// non-empty first label and its dot, when that rest is non-empty and holds
/// no line feed.
pub open spec fn apex_capture(host: Seq<char>) -> Option<Seq<char>> {
    let d = label_end(host);
    if 0 < d && d + 1 < host.len() && forall|i: int| d < i < host.len() ==> host[i] != '\n' {
        Some(host.subrange(d + 1, host.len() as int))
    } else {
        None
    }
}

/// The apex of `host`: the capture above, or `host` itself when it does not match.
pub open spec fn apex_spec(host: Seq<char>) -> Seq<char> {
    match apex_capture(host) {
        Some(rest) => rest,
        None => host,
    }
}

/// The URL that the root of `host` redirects to.
pub open spec fn root_target_spec(host: Seq<char>) -> Seq<char> {
    seq!['h', 't', 't', 'p', 's', ':', '/', '/'] + apex_spec(host) + seq!['/']
}

/// Relies on regex's `Regex::new` and `Regex::captures` with the pattern
/// `^[^.]+\.(.+)$`: the text of group 1 when `host` matches, `None` otherwise.
#[verifier::external_body]
fn capture_after_first_label(host: &str) -> (r: Option<String>)
    ensures
        r matches Some(s) ==> apex_capture(host@) == Some(s@),
        r is None ==> apex_capture(host@) is None,
{
    let re = regex::Regex::new(r"^[^.]+\.(.+)$").ok()?;
    re.captures(host)?.get(1).map(|m| m.as_str().to_string())
}

/// Strips the first label from `host`, as `apex_spec` describes.
pub fn apex_of(host: &str) -> (r: String)
    ensures
        r@ == apex_spec(host@),
{
    match capture_after_first_label(host) {
        Some(rest) => rest,
        None => string_of(chars_of(host).as_slice()),
    }
}

/// The redirect target `https://<apex>/` for a request to the root of `host`.
pub fn root_redirect_target(host: &str) -> (r: String)
    ensures
        r@ == root_target_spec(host@),
{
    let scheme = ['h', 't', 't', 'p', 's', ':', '/', '/'];
    let apex = apex_of(host);
    let mut out: Vec<char> = Vec::new();
    push_all(&mut out, &scheme);
    push_all(&mut out, chars_of(apex.as_str()).as_slice());
    out.push('/');
    assert(out@ == root_target_spec(host@));
    string_of(out.as_slice())
}

} // verus!
