//! Storage keys: the `host:slug` naming convention, reserved slugs and slug
//! normalisation.
use vstd::prelude::*;
use crate::text::{chars_of, string_of, chars_eq, push_all};

verus! {

/// The storage key of `slug` under `host`.
pub open spec fn key_spec(host: Seq<char>, slug: Seq<char>) -> Seq<char> {
    host + seq![':'] + slug
}

/// The prefix shared by every key of `host`.
pub open spec fn host_prefix(host: Seq<char>) -> Seq<char> {
    host + seq![':']
}

/// The slug held by `full_key` under `host`, or the empty sequence when the
/// key does not belong to `host`.
pub open spec fn slug_from_key_spec(host: Seq<char>, full_key: Seq<char>) -> Seq<char> {
    let p = host_prefix(host);
    if p.len() <= full_key.len() && full_key.subrange(0, p.len() as int) == p {
        full_key.subrange(p.len() as int, full_key.len() as int)
    } else {
        Seq::empty()
    }
}

/// The slugs that name management endpoints and never resolve.
pub open spec fn reserved_spec(slug: Seq<char>) -> bool {
    slug == seq!['c', 'r', 'e', 'a', 't', 'e']
        || slug == seq!['s', 't', 'a', 't', 's']
        || slug == seq!['l', 'i', 's', 't']
}

/// `s` without its leading `/` characters.
pub open spec fn trim_start_slashes(s: Seq<char>) -> Seq<char>
    decreases s.len(),
{
    if s.len() > 0 && s[0] == '/' {
        trim_start_slashes(s.drop_first())
    } else {
        s
    }
}

/// `s` without its trailing `/` characters.
pub open spec fn trim_end_slashes(s: Seq<char>) -> Seq<char>
    decreases s.len(),
{
    if s.len() > 0 && s.last() == '/' {
        trim_end_slashes(s.drop_last())
    } else {
        s
    }
}

/// `s` without its leading and trailing `/` characters.
pub open spec fn normalize_spec(s: Seq<char>) -> Seq<char> {
    trim_end_slashes(trim_start_slashes(s))
}

/// Builds the key `host:slug`.
pub fn key(host: &str, slug: &str) -> (r: String)
    ensures
        r@ == key_spec(host@, slug@),
{
    let mut v = chars_of(host);
    v.push(':');
    let s = chars_of(slug);
    push_all(&mut v, s.as_slice());
    string_of(v.as_slice())
}

/// Builds the prefix `host:` under which all keys of `host` lie.
pub fn host_key_prefix(host: &str) -> (r: String)
    ensures
        r@ == host_prefix(host@),
{
    let mut v = chars_of(host);
    v.push(':');
    string_of(v.as_slice())
}

/// Strips the prefix `host:` from `full_key`; empty when the prefix is absent.
pub fn slug_from_key(host: &str, full_key: &str) -> (r: String)
    ensures
        r@ == slug_from_key_spec(host@, full_key@),
{
    let mut p = chars_of(host);
    p.push(':');
    assert(p@ == host_prefix(host@));
    let k = chars_of(full_key);
    let empty: Vec<char> = Vec::new();
    if p.len() > k.len() {
        return string_of(empty.as_slice());
    }
    let head = k.as_slice().split_at(p.len()).0;
    let tail = k.as_slice().split_at(p.len()).1;
    assert(head@ == k@.subrange(0, p@.len() as int));
    assert(tail@ == k@.subrange(p@.len() as int, k@.len() as int));
    if chars_eq(head, p.as_slice()) {
        string_of(tail)
    } else {
        string_of(empty.as_slice())
    }
}

/// Whether `slug` is one of the reserved management slugs.
pub fn is_reserved(slug: &str) -> (r: bool)
    ensures
        r == reserved_spec(slug@),
{
    let s = chars_of(slug);
    let create = ['c', 'r', 'e', 'a', 't', 'e'];
    let stats = ['s', 't', 'a', 't', 's'];
    let list = ['l', 'i', 's', 't'];
    assert(create@ == seq!['c', 'r', 'e', 'a', 't', 'e']);
    assert(stats@ == seq!['s', 't', 'a', 't', 's']);
    assert(list@ == seq!['l', 'i', 's', 't']);
    chars_eq(s.as_slice(), &create) || chars_eq(s.as_slice(), &stats) || chars_eq(s.as_slice(), &list)
}

proof fn lemma_trim_start_from(s: Seq<char>, i: int)
    requires
        0 <= i <= s.len(),
        forall|j: int| 0 <= j < i ==> s[j] == '/',
    ensures
        trim_start_slashes(s) == trim_start_slashes(s.subrange(i, s.len() as int)),
    decreases i,
{
    if i > 0 {
        assert(s.drop_first().subrange(i - 1, s.len() - 1) == s.subrange(i, s.len() as int));
        lemma_trim_start_from(s.drop_first(), i - 1);
    } else {
        assert(s.subrange(0, s.len() as int) == s);
    }
}

proof fn lemma_trim_end_to(s: Seq<char>, i: int)
    requires
        0 <= i <= s.len(),
        forall|j: int| i <= j < s.len() ==> s[j] == '/',
    ensures
        trim_end_slashes(s) == trim_end_slashes(s.subrange(0, i)),
    decreases s.len() - i,
{
    if i < s.len() {
        assert(s.drop_last().subrange(0, i) == s.subrange(0, i));
        lemma_trim_end_to(s.drop_last(), i);
    } else {
        assert(s.subrange(0, s.len() as int) == s);
    }
}

/// Removes leading and trailing `/` characters from `raw`.
pub fn normalize_slug(raw: &str) -> (r: String)
    ensures
        r@ == normalize_spec(raw@),
{
    let s = chars_of(raw);
    let mut lo: usize = 0;
    while lo < s.len() && s[lo] == '/'
        invariant
            lo <= s@.len(),
            forall|j: int| 0 <= j < lo ==> s@[j] == '/',
        decreases s@.len() - lo,
    {
        lo = lo + 1;
    }
    let mut hi: usize = s.len();
    while hi > lo && s[hi - 1] == '/'
        invariant
            lo <= hi <= s@.len(),
            forall|j: int| hi <= j < s@.len() ==> s@[j] == '/',
        decreases hi,
    {
        hi = hi - 1;
    }
    proof {
        let t = s@.subrange(lo as int, s@.len() as int);
        lemma_trim_start_from(s@, lo as int);
        assert(trim_start_slashes(t) == t);
        lemma_trim_end_to(t, hi - lo);
        let u = t.subrange(0, hi - lo);
        assert(u == s@.subrange(lo as int, hi as int));
        assert(trim_end_slashes(u) == u);
    }
    let mid = s.as_slice().split_at(hi).0.split_at(lo).1;
    assert(mid@ == s@.subrange(lo as int, hi as int));
    string_of(mid)
}

} // verus!
