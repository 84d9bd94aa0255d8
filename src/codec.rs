//! The stored text form of a link record: a JSON object with a string member
//! `redirect_url` and an unsigned integer member `hits`. Records are written
//! in compact form, `{"redirect_url":<url as a JSON string>,"hits":<n>}`, and
//! read back by serde_json, so any JSON object with those two members is a
//! record, whatever its layout, member order or other members.
use vstd::prelude::*;
use crate::text::{chars_of, string_of, push_all};

verus! {

/// A stored link: where it points and how often it was followed.
pub struct LinkRecord {
    pub redirect_url: String,
    pub hits: u64,
}

/// The stored text is not a record.
#[derive(Debug, PartialEq, Eq, Clone, Copy)]
pub enum DecodeError {
    Malformed,
}

/// The URL and hit count that serde_json reads from `text`: the string member
/// `redirect_url` and the unsigned integer member `hits` of the JSON object it
/// holds, if it holds one with both.
pub uninterp spec fn json_record(text: Seq<char>) -> Option<(Seq<char>, u64)>;

/// The JSON string literal that serde_json writes for `s`, quotes included.
pub uninterp spec fn json_string(s: Seq<char>) -> Seq<char>;

/// The opening of every written record, up to the URL's literal.
pub open spec fn head_spec() -> Seq<char> {
    seq!['{', '"', 'r', 'e', 'd', 'i', 'r', 'e', 'c', 't', '_', 'u', 'r', 'l', '"', ':']
}

/// What separates the URL's literal from the hit count.
pub open spec fn mid_spec() -> Seq<char> {
    seq![',', '"', 'h', 'i', 't', 's', '"', ':']
}

/// The character of decimal digit `d`.
pub open spec fn digit_char(d: nat) -> char {
    if d == 0 { '0' } else if d == 1 { '1' } else if d == 2 { '2' } else if d == 3 { '3' }
    else if d == 4 { '4' } else if d == 5 { '5' } else if d == 6 { '6' } else if d == 7 { '7' }
    else if d == 8 { '8' } else { '9' }
}

/// `n` in decimal, without leading zeros.
pub open spec fn decimal(n: nat) -> Seq<char>
    decreases n,
{
    if n < 10 {
        seq![digit_char(n)]
    } else {
        decimal(n / 10).push(digit_char(n % 10))
    }
}

/// A written record around the JSON literal `quoted` of its URL.
pub open spec fn record_frame(quoted: Seq<char>, hits: nat) -> Seq<char> {
    head_spec() + quoted + mid_spec() + decimal(hits) + seq!['}']
}

/// The text written for a record with URL `url` and hit count `hits`.
pub open spec fn encoded(url: Seq<char>, hits: u64) -> Seq<char> {
    record_frame(json_string(url), hits as nat)
}

/// Relies on `serde_json::to_string` for a `str`: the JSON string literal of
/// `s`, which `serde_json::from_str` reads back as `s`, so that a compact
/// object holding it as `redirect_url` and a decimal `hits` reads back as
/// that URL and count.
#[verifier::external_body]
fn quote_json(s: &str) -> (r: String)
    ensures
        r@ == json_string(s@),
        forall|n: u64| #[trigger] json_record(record_frame(r@, n as nat)) == Some((s@, n)),
{
    serde_json::to_string(s).unwrap_or_default()
}

/// Relies on `serde_json::from_str` into a `serde_json::Value`, then
/// `Value::get`, `Value::as_str` and `Value::as_u64`: the string member
/// `redirect_url` and the unsigned integer member `hits` of the object that
/// `text` holds.
#[verifier::external_body]
fn read_record(text: &str) -> (r: Option<(String, u64)>)
    ensures
        r matches Some(p) ==> json_record(text@) == Some((p.0@, p.1)),
        r is None ==> json_record(text@) is None,
{
    let v: serde_json::Value = serde_json::from_str(text).ok()?;
    let url = v.get("redirect_url")?.as_str()?.to_string();
    let hits = v.get("hits")?.as_u64()?;
    Some((url, hits))
}

fn digit_to_char(d: u64) -> (c: char)
    requires
        d < 10,
    ensures
        c == digit_char(d as nat),
{
    let digits = ['0', '1', '2', '3', '4', '5', '6', '7', '8', '9'];
    let c = digits[d as usize];
    assert(d == 0 || d == 1 || d == 2 || d == 3 || d == 4 || d == 5 || d == 6 || d == 7 || d == 8 || d == 9);
    c
}

fn push_decimal(out: &mut Vec<char>, n: u64)
    ensures
        final(out)@ == old(out)@ + decimal(n as nat),
    decreases n,
{
    if n >= 10 {
        push_decimal(out, n / 10);
    }
    out.push(digit_to_char(n % 10));
}

/// The stored text of `record`; reading it back gives the same record.
pub fn encode(record: &LinkRecord) -> (t: String)
    ensures
        t@ == encoded(record.redirect_url@, record.hits),
        json_record(t@) == Some((record.redirect_url@, record.hits)),
{
    let head = ['{', '"', 'r', 'e', 'd', 'i', 'r', 'e', 'c', 't', '_', 'u', 'r', 'l', '"', ':'];
    let mid = [',', '"', 'h', 'i', 't', 's', '"', ':'];
    assert(head@ == head_spec());
    assert(mid@ == mid_spec());
    let quoted = quote_json(record.redirect_url.as_str());
    let mut out: Vec<char> = Vec::new();
    push_all(&mut out, &head);
    push_all(&mut out, chars_of(quoted.as_str()).as_slice());
    push_all(&mut out, &mid);
    push_decimal(&mut out, record.hits);
    out.push('}');
    assert(out@ == record_frame(quoted@, record.hits as nat));
    string_of(out.as_slice())
}

/// Reads a record from its stored text: `Ok` exactly when serde_json reads
/// the text as an object with a string `redirect_url` and an unsigned `hits`.
pub fn decode(text: &str) -> (r: Result<LinkRecord, DecodeError>)
    ensures
        match r {
            Ok(rec) => json_record(text@) == Some((rec.redirect_url@, rec.hits)),
            Err(_) => json_record(text@) is None,
        },
{
    match read_record(text) {
        Some((redirect_url, hits)) => Ok(LinkRecord { redirect_url, hits }),
        None => Err(DecodeError::Malformed),
    }
}

} // verus!
