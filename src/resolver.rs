//! Resolution of a request path to a stored link, as a state machine: the
//! caller performs each store read or write that a step asks for and hands
//! the answer back. Candidate slugs are tried from the whole path down to its
//! first segment, so the longest stored prefix wins.
use vstd::prelude::*;
use crate::keyspace::{key, key_spec, reserved_spec, is_reserved};
use crate::codec::{LinkRecord, decode, encode, encoded, json_record};
use crate::text::{chars_of, string_of};

verus! {

/// What the caller is to do next.
#[derive(Debug, PartialEq, Eq)]
pub enum Step {
    /// Read the value stored under this key and pass it to `on_lookup`.
    Lookup(String),
    /// Write `value` under `key`, then redirect to `target`.
    Store { key: String, value: String, target: String },
    /// No stored link answers the request.
    NotFound,
    /// The value stored under the key just read is not a record.
    Corrupt,
}

/// The slug that a request path names: the path without one leading `/`.
pub open spec fn request_slug(path: Seq<char>) -> Seq<char> {
    if path.len() > 0 && path[0] == '/' {
        path.drop_first()
    } else {
        path
    }
}

/// The prefixes of `p` that end just before a `/` standing below index `n`,
/// longest first.
pub open spec fn cuts_below(p: Seq<char>, n: int) -> Seq<Seq<char>>
    decreases n,
{
    if n <= 0 {
        Seq::empty()
    } else if p[n - 1] == '/' {
        seq![p.subrange(0, n - 1)] + cuts_below(p, n - 1)
    } else {
        cuts_below(p, n - 1)
    }
}

/// The slugs tried for `p`, in order: `p` itself, then each prefix of `p`
/// that ends at a segment boundary, longest first.
pub open spec fn candidate_slugs(p: Seq<char>) -> Seq<Seq<char>> {
    seq![p] + cuts_below(p, p.len() as int)
}

/// The hit count after one more resolution; it stays put at the largest value.
pub open spec fn bump(h: u64) -> u64 {
    if h < u64::MAX {
        (h + 1) as u64
    } else {
        h
    }
}

/// Whether `found` is what `store` holds under `key`.
pub open spec fn answers(store: Map<Seq<char>, Seq<char>>, key: Seq<char>, found: Option<String>) -> bool {
    match found {
        Some(text) => store.contains_key(key) && store[key] == text@,
        None => !store.contains_key(key),
    }
}

/// An ongoing resolution: the candidate keys and the index of the one
/// whose value is awaited.
pub struct Resolver {
    pub keys: Vec<String>,
    pub next: usize,
}

impl Resolver {
    /// The candidate keys as character sequences.
    pub open spec fn key_views(&self) -> Seq<Seq<char>> {
        self.keys@.map_values(|k: String| k@)
    }

    /// Where the rest of this resolution stops when every read is answered
    /// from `store`: the index of the first remaining key that `store` holds,
    /// or `None` when it holds none and the resolution ends in `NotFound`.
    pub open spec fn run_in(&self, store: Map<Seq<char>, Seq<char>>) -> Option<int> {
        first_stored(store.dom(), self.key_views(), self.next as int)
    }

    /// Whether a lookup is still awaited.
    pub open spec fn pending(&self) -> bool {
        self.next < self.keys@.len()
    }

    /// Whether the candidate keys are those of slug candidates `slugs` under `host`.
    pub open spec fn keys_of(&self, host: Seq<char>, slugs: Seq<Seq<char>>) -> bool {
        &&& self.keys@.len() == slugs.len()
        &&& forall|i: int| 0 <= i < slugs.len() ==> (#[trigger] self.keys@[i])@ == key_spec(host, slugs[i])
    }

    /// Whether a lookup is still awaited, so that `on_lookup` may be called.
    pub fn is_pending(&self) -> (r: bool)
        ensures
            r == self.pending(),
    {
        self.next < self.keys.len()
    }

    /// Begins resolving `path` under `host`. A reserved slug ends at once in
    /// `NotFound`; otherwise the first step reads the key of the whole path.
    pub fn start(host: &str, path: &str) -> (r: (Resolver, Step))
        ensures
            reserved_spec(request_slug(path@)) ==> (r.1 is NotFound && !r.0.pending()),
            !reserved_spec(request_slug(path@)) ==> forall|store: Map<Seq<char>, Seq<char>>|
                #[trigger] r.0.run_in(store) == first_stored(store.dom(), candidate_keys_spec(host@, request_slug(path@)), 0),
            !reserved_spec(request_slug(path@)) ==> {
                &&& r.0.keys_of(host@, candidate_slugs(request_slug(path@)))
                &&& r.0.next == 0
                &&& (r.1 matches Step::Lookup(k) && k@ == key_spec(host@, request_slug(path@)))
            },
    {
        let chars = chars_of(path);
        let slug_chars: &[char] = if chars.len() > 0 && chars[0] == '/' {
            chars.as_slice().split_at(1).1
        } else {
            chars.as_slice()
        };
        assert(slug_chars@ == request_slug(path@));
        let slug = string_of(slug_chars);
        if is_reserved(slug.as_str()) {
            return (Resolver { keys: Vec::new(), next: 0 }, Step::NotFound);
        }
        let keys = candidate_keys(host, slug_chars);
        let first = keys[0].clone();
        let r = Resolver { keys, next: 0 };
        assert(r.key_views() =~= candidate_keys_spec(host@, request_slug(path@)));
        (r, Step::Lookup(first))
    }

    /// Takes the value read for the awaited key. A record there is counted and
    /// written back, and the request redirects to it; an empty slot moves on
    /// to the next shorter candidate, or ends in `NotFound` after the last.
    pub fn on_lookup(&mut self, found: Option<String>) -> (s: Step)
        requires
            old(self).pending(),
        ensures
            final(self).keys@ == old(self).keys@,
            forall|store: Map<Seq<char>, Seq<char>>| answers(store, old(self).keys@[old(self).next as int]@, found)
                ==> #[trigger] old(self).run_in(store) == if found is Some {
                    Some(old(self).next as int)
                } else {
                    final(self).run_in(store)
                },
            found is Some ==> !final(self).pending() && match json_record(found->Some_0@) {
                Some(rec) => (s matches Step::Store { key, value, target } && key@ == old(self).keys@[old(self).next as int]@
                    && value@ == encoded(rec.0, bump(rec.1)) && json_record(value@) == Some((rec.0, bump(rec.1)))
                    && target@ == rec.0),
                None => s is Corrupt,
            },
            found is None ==> {
                &&& final(self).next == old(self).next + 1
                &&& final(self).pending() ==> (s matches Step::Lookup(k) && k@ == final(self).keys@[final(self).next as int]@)
                &&& !final(self).pending() ==> s is NotFound
            },
    {
        let current = self.next;
        let total = self.keys.len();
        assert(self.key_views()[current as int] == self.keys@[current as int]@);
        match found {
            Some(text) => {
                self.next = total;
                match decode(text.as_str()) {
                    Ok(rec) => {
                        let hits = if rec.hits < u64::MAX { rec.hits + 1 } else { rec.hits };
                        let target = string_of(chars_of(rec.redirect_url.as_str()).as_slice());
                        let updated = LinkRecord { redirect_url: rec.redirect_url, hits };
                        let value = encode(&updated);
                        Step::Store { key: self.keys[current].clone(), value, target }
                    },
                    Err(_) => Step::Corrupt,
                }
            },
            None => {
                self.next = current + 1;
                if self.next < self.keys.len() {
                    Step::Lookup(self.keys[self.next].clone())
                } else {
                    Step::NotFound
                }
            },
        }
    }
}

/// The keys of the candidate slugs of `p` under `host`, in order.
fn candidate_keys(host: &str, p: &[char]) -> (r: Vec<String>)
    ensures
        r@.len() == candidate_slugs(p@).len(),
        forall|i: int| 0 <= i < r@.len() ==> (#[trigger] r@[i])@ == key_spec(host@, candidate_slugs(p@)[i]),
{
    let mut out: Vec<String> = Vec::new();
    let whole = string_of(p);
    out.push(key(host, whole.as_str()));
    let ghost mut slugs: Seq<Seq<char>> = seq![p@];
    let mut n: usize = p.len();
    while n > 0
        invariant
            n <= p@.len(),
            out@.len() == slugs.len(),
            forall|i: int| 0 <= i < slugs.len() ==> (#[trigger] out@[i])@ == key_spec(host@, slugs[i]),
            slugs + cuts_below(p@, n as int) == candidate_slugs(p@),
        decreases n,
    {
        if p[n - 1] == '/' {
            let cut_chars = p.split_at(n - 1).0;
            let cut = string_of(cut_chars);
            out.push(key(host, cut.as_str()));
            proof {
                let c = seq![p@.subrange(0, n - 1)];
                assert(slugs + cuts_below(p@, n as int) == (slugs + c) + cuts_below(p@, n - 1));
                slugs = slugs + c;
            }
        }
        n = n - 1;
    }
    assert(cuts_below(p@, 0) == Seq::<Seq<char>>::empty());
    assert(slugs + Seq::<Seq<char>>::empty() == slugs);
    out
}

/// The index of the first of `keys`, from index `from` on, that `present` holds.
pub open spec fn first_stored(present: Set<Seq<char>>, keys: Seq<Seq<char>>, from: int) -> Option<int>
    decreases keys.len() - from,
{
    if from < 0 || from >= keys.len() {
        None
    } else if present.contains(keys[from]) {
        Some(from)
    } else {
        first_stored(present, keys, from + 1)
    }
}

/// The keys tried for `p` under `host`, in order.
pub open spec fn candidate_keys_spec(host: Seq<char>, p: Seq<char>) -> Seq<Seq<char>> {
    candidate_slugs(p).map_values(|c: Seq<char>| key_spec(host, c))
}

proof fn lemma_cuts(p: Seq<char>, n: int)
    requires
        0 <= n <= p.len(),
    ensures
        forall|i: int| 0 <= i < cuts_below(p, n).len() ==> {
            &&& (#[trigger] cuts_below(p, n)[i]).len() < n
            &&& cuts_below(p, n)[i] == p.subrange(0, cuts_below(p, n)[i].len() as int)
        },
        forall|i: int, j: int| 0 <= i < j < cuts_below(p, n).len() ==>
            (#[trigger] cuts_below(p, n)[j]).len() < (#[trigger] cuts_below(p, n)[i]).len(),
        forall|m: int| 0 <= m < n && p[m] == '/' ==> exists|i: int| 0 <= i < cuts_below(p, n).len()
            && #[trigger] cuts_below(p, n)[i] == p.subrange(0, m),
    decreases n,
{
    if n > 0 {
        lemma_cuts(p, n - 1);
        let prev = cuts_below(p, n - 1);
        if p[n - 1] == '/' {
            let c = cuts_below(p, n);
            assert(c == seq![p.subrange(0, n - 1)] + prev);
            assert forall|i: int| 0 <= i < c.len() implies (#[trigger] c[i]).len() < n
                && c[i] == p.subrange(0, c[i].len() as int) by {
                if i > 0 {
                    assert(c[i] == prev[i - 1]);
                }
            }
            assert forall|i: int, j: int| 0 <= i < j < c.len() implies (#[trigger] c[j]).len() < (#[trigger] c[i]).len() by {
                assert(c[j] == prev[j - 1]);
                if i > 0 {
                    assert(c[i] == prev[i - 1]);
                }
            }
            assert forall|m: int| 0 <= m < n && p[m] == '/' implies exists|i: int| 0 <= i < c.len()
                && #[trigger] c[i] == p.subrange(0, m) by {
                if m == n - 1 {
                    assert(c[0] == p.subrange(0, m));
                } else {
                    let i = choose|i: int| 0 <= i < prev.len() && #[trigger] prev[i] == p.subrange(0, m);
                    assert(c[i + 1] == prev[i]);
                }
            }
        }
    }
}

/// The candidates for `p` are prefixes of `p` that end at a segment
/// boundary, starting with `p` itself and strictly shorter each time; every
/// prefix that ends just before a `/` is among them.
pub proof fn lemma_candidates_longest_first(p: Seq<char>)
    ensures
        candidate_slugs(p)[0] == p,
        forall|i: int| 0 <= i < candidate_slugs(p).len() ==>
            (#[trigger] candidate_slugs(p)[i]) == p.subrange(0, candidate_slugs(p)[i].len() as int),
        forall|i: int, j: int| 0 <= i < j < candidate_slugs(p).len() ==>
            (#[trigger] candidate_slugs(p)[j]).len() < (#[trigger] candidate_slugs(p)[i]).len(),
        forall|m: int| 0 <= m < p.len() && p[m] == '/' ==> exists|i: int| 0 <= i < candidate_slugs(p).len()
            && #[trigger] candidate_slugs(p)[i] == p.subrange(0, m),
{
    lemma_cuts(p, p.len() as int);
    let c = candidate_slugs(p);
    let cuts = cuts_below(p, p.len() as int);
    assert(p.subrange(0, p.len() as int) == p);
    assert forall|i: int| 0 <= i < c.len() implies (#[trigger] c[i]) == p.subrange(0, c[i].len() as int) by {
        if i > 0 {
            assert(c[i] == cuts[i - 1]);
        }
    }
    assert forall|i: int, j: int| 0 <= i < j < c.len() implies (#[trigger] c[j]).len() < (#[trigger] c[i]).len() by {
        assert(c[j] == cuts[j - 1]);
        if i > 0 {
            assert(c[i] == cuts[i - 1]);
        }
    }
    assert forall|m: int| 0 <= m < p.len() && p[m] == '/' implies exists|i: int| 0 <= i < c.len()
        && #[trigger] c[i] == p.subrange(0, m) by {
        let i = choose|i: int| 0 <= i < cuts.len() && #[trigger] cuts[i] == p.subrange(0, m);
        assert(c[i + 1] == cuts[i]);
    }
}

proof fn lemma_first_stored_is_first(present: Set<Seq<char>>, keys: Seq<Seq<char>>, from: int, i: int)
    requires
        0 <= from,
        first_stored(present, keys, from) == Some(i),
    ensures
        from <= i < keys.len(),
        present.contains(keys[i]),
        forall|j: int| from <= j < i ==> !present.contains(#[trigger] keys[j]),
    decreases keys.len() - from,
{
    if from < keys.len() && !present.contains(keys[from]) {
        lemma_first_stored_is_first(present, keys, from + 1, i);
    }
}

/// A resolution that has read keys `0..from` and found them all empty ends
/// where the first stored key overall is: the steps of `Resolver` walk the
/// keys in order and stop at the first one the store holds.
pub proof fn lemma_first_stored_after_misses(present: Set<Seq<char>>, keys: Seq<Seq<char>>, from: int)
    requires
        0 <= from,
        forall|j: int| 0 <= j < from && j < keys.len() ==> !present.contains(#[trigger] keys[j]),
    ensures
        first_stored(present, keys, 0) == first_stored(present, keys, from),
    decreases from,
{
    if from > 0 {
        lemma_first_stored_after_misses(present, keys, from - 1);
    }
}

proof fn lemma_first_stored_none(present: Set<Seq<char>>, keys: Seq<Seq<char>>, from: int)
    requires
        0 <= from,
        forall|j: int| from <= j < keys.len() ==> !present.contains(#[trigger] keys[j]),
    ensures
        first_stored(present, keys, from) is None,
    decreases keys.len() - from,
{
    if from < keys.len() {
        lemma_first_stored_none(present, keys, from + 1);
    }
}

/// When the store holds keys of several candidates, the resolution (whose
/// `run_in` is this `first_stored`, see `Resolver::start`) stops at the key of
/// the longest stored candidate: a longer stored prefix of the path
/// wins over a shorter one.
pub proof fn lemma_longest_stored_prefix_wins(store: Map<Seq<char>, Seq<char>>, host: Seq<char>, p: Seq<char>, i: int, j: int)
    requires
        first_stored(store.dom(), candidate_keys_spec(host, p), 0) == Some(i),
        0 <= j < candidate_slugs(p).len(),
        store.dom().contains(candidate_keys_spec(host, p)[j]),
    ensures
        candidate_slugs(p)[j].len() <= candidate_slugs(p)[i].len(),
{
    lemma_first_stored_is_first(store.dom(), candidate_keys_spec(host, p), 0, i);
    lemma_candidates_longest_first(p);
    if j < i {
        assert(!store.dom().contains(candidate_keys_spec(host, p)[j]));
    } else if j > i {
        assert(candidate_slugs(p)[j].len() < candidate_slugs(p)[i].len());
    }
}

/// When the store holds no key of a prefix of the path under the host, no
/// candidate is found: the resolution's `run_in` is `None` and it ends in
/// `NotFound`.
pub proof fn lemma_no_stored_prefix_no_match(store: Map<Seq<char>, Seq<char>>, host: Seq<char>, p: Seq<char>)
    requires
        forall|m: int| 0 <= m <= p.len() ==> !store.dom().contains(#[trigger] key_spec(host, p.subrange(0, m))),
    ensures
        first_stored(store.dom(), candidate_keys_spec(host, p), 0) is None,
{
    lemma_candidates_longest_first(p);
    let keys = candidate_keys_spec(host, p);
    assert forall|j: int| 0 <= j < keys.len() implies !store.dom().contains(#[trigger] keys[j]) by {
        let c = candidate_slugs(p)[j];
        assert(c == p.subrange(0, c.len() as int));
        assert(keys[j] == key_spec(host, p.subrange(0, c.len() as int)));
    }
    lemma_first_stored_none(store.dom(), keys, 0);
}

} // verus!
