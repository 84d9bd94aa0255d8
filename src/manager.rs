//! The authenticated management operations. Each one is split around its
//! store access: a first function checks the credential and the input and
//! says which key to touch; a second one turns what the store answered into
//! the operation's result.
use vstd::prelude::*;
use crate::auth::{AuthError, authorize, authorize_spec};
use crate::keyspace::{key, key_spec, host_key_prefix, host_prefix, normalize_slug, normalize_spec, slug_from_key, slug_from_key_spec};
use crate::codec::{LinkRecord, decode, encode, encoded, json_record};
use crate::text::{chars_of, string_of, push_all};

verus! {

/// Why a management operation failed.
#[derive(Debug, PartialEq, Eq, Clone, Copy)]
pub enum ManageError {
    /// A required field is missing or empty.
    InvalidInput,
    /// The credential does not match the configured secret.
    Unauthorized,
    /// No secret is configured.
    ServerMisconfigured,
    /// A link already exists under the requested slug.
    Conflict,
    /// No link exists under the requested slug, or the store could not delete it.
    NotFound,
    /// The stored value is not a record.
    Corrupt,
}

/// A stored link as the management operations report it.
pub struct LinkInfo {
    pub host: String,
    pub slug: String,
    pub redirect_url: String,
    pub hits: u64,
}

impl View for LinkInfo {
    type V = (Seq<char>, Seq<char>, Seq<char>, u64);

    open spec fn view(&self) -> (Seq<char>, Seq<char>, Seq<char>, u64) {
        (self.host@, self.slug@, self.redirect_url@, self.hits)
    }
}

/// What a successful creation is to write, and the URL it announces.
pub struct CreatePlan {
    pub key: String,
    pub value: String,
    pub short_url: String,
}

/// The management error that a refused credential becomes.
pub open spec fn from_auth(e: AuthError) -> ManageError {
    match e {
        AuthError::Unauthorized => ManageError::Unauthorized,
        AuthError::ServerMisconfigured => ManageError::ServerMisconfigured,
    }
}

/// The short URL `https://<host>/<slug>`.
pub open spec fn short_url_spec(host: Seq<char>, slug: Seq<char>) -> Seq<char> {
    seq!['h', 't', 't', 'p', 's', ':', '/', '/'] + host + seq!['/'] + slug
}

/// The outcome of a creation once the store said whether the key is taken.
pub open spec fn create_outcome(taken: bool) -> Result<(), ManageError> {
    if taken {
        Err(ManageError::Conflict)
    } else {
        Ok(())
    }
}

/// The links that a listing reports for `entries`, pairs of a key and what
/// the store held under it: one for each entry that holds a record, in order.
pub open spec fn list_spec(host: Seq<char>, entries: Seq<(String, Option<String>)>)
    -> Seq<(Seq<char>, Seq<char>, Seq<char>, u64)>
    decreases entries.len(),
{
    if entries.len() == 0 {
        Seq::empty()
    } else {
        let prev = list_spec(host, entries.drop_last());
        let e = entries.last();
        match e.1 {
            Some(text) => match json_record(text@) {
                Some(rec) => prev.push((host, slug_from_key_spec(host, e.0@), rec.0, rec.1)),
                None => prev,
            },
            None => prev,
        }
    }
}

/// The management error that a refused credential becomes.
pub fn auth_error(e: AuthError) -> (r: ManageError)
    ensures
        r == from_auth(e),
{
    match e {
        AuthError::Unauthorized => ManageError::Unauthorized,
        AuthError::ServerMisconfigured => ManageError::ServerMisconfigured,
    }
}

/// Checks the credential and the input of a creation. On success, the plan
/// writes a fresh record (no hits) under `host:<slug without outer slashes>`.
pub fn plan_create(header: &str, secret: &str, host: &str, slug: &str, url: &str) -> (r: Result<CreatePlan, ManageError>)
    ensures
        authorize_spec(header@, secret@) matches Err(e) ==> r == Err::<CreatePlan, ManageError>(from_auth(e)),
        authorize_spec(header@, secret@) is Ok ==> {
            &&& (normalize_spec(slug@).len() == 0 || url@.len() == 0) ==> r == Err::<CreatePlan, ManageError>(ManageError::InvalidInput)
            &&& (normalize_spec(slug@).len() > 0 && url@.len() > 0) ==> (r matches Ok(p)
                && p.key@ == key_spec(host@, normalize_spec(slug@))
                && p.value@ == encoded(url@, 0u64)
                && p.short_url@ == short_url_spec(host@, normalize_spec(slug@)))
        },
{
    if let Err(e) = authorize(header, secret) {
        return Err(auth_error(e));
    }
    let cleaned = normalize_slug(slug);
    let url_chars = chars_of(url);
    if chars_of(cleaned.as_str()).len() == 0 || url_chars.len() == 0 {
        return Err(ManageError::InvalidInput);
    }
    let record = LinkRecord { redirect_url: string_of(url_chars.as_slice()), hits: 0 };
    let value = encode(&record);
    let scheme = ['h', 't', 't', 'p', 's', ':', '/', '/'];
    let mut short: Vec<char> = Vec::new();
    push_all(&mut short, &scheme);
    push_all(&mut short, chars_of(host).as_slice());
    short.push('/');
    push_all(&mut short, chars_of(cleaned.as_str()).as_slice());
    assert(short@ == short_url_spec(host@, normalize_spec(slug@)));
    Ok(CreatePlan { key: key(host, cleaned.as_str()), value, short_url: string_of(short.as_slice()) })
}

/// Finishes a creation once the store answered whether the key is taken:
/// a taken key is a conflict; otherwise the plan's value is to be written.
pub fn finish_create(existing: &Option<String>) -> (r: Result<(), ManageError>)
    ensures
        r == create_outcome(existing is Some),
{
    match existing {
        Some(_) => Err(ManageError::Conflict),
        None => Ok(()),
    }
}

/// Checks the credential of a request about one slug and gives its key `host:slug`.
pub fn authorized_key(header: &str, secret: &str, host: &str, slug: &str) -> (r: Result<String, ManageError>)
    ensures
        authorize_spec(header@, secret@) matches Err(e) ==> r == Err::<String, ManageError>(from_auth(e)),
        authorize_spec(header@, secret@) is Ok ==> (r matches Ok(k) && k@ == key_spec(host@, slug@)),
{
    match authorize(header, secret) {
        Err(e) => Err(auth_error(e)),
        Ok(()) => Ok(key(host, slug)),
    }
}

/// Checks the credential of a listing and gives the prefix `host:` of the keys to list.
pub fn authorized_prefix(header: &str, secret: &str, host: &str) -> (r: Result<String, ManageError>)
    ensures
        authorize_spec(header@, secret@) matches Err(e) ==> r == Err::<String, ManageError>(from_auth(e)),
        authorize_spec(header@, secret@) is Ok ==> (r matches Ok(k) && k@ == host_prefix(host@)),
{
    match authorize(header, secret) {
        Err(e) => Err(auth_error(e)),
        Ok(()) => Ok(host_key_prefix(host)),
    }
}

/// The result of a deletion, from whether the store's delete succeeded.
pub fn finish_delete(deleted: bool) -> (r: Result<(), ManageError>)
    ensures
        deleted ==> r == Ok::<(), ManageError>(()),
        !deleted ==> r == Err::<(), ManageError>(ManageError::NotFound),
{
    if deleted {
        Ok(())
    } else {
        Err(ManageError::NotFound)
    }
}

/// The statistics of `slug` from what the store held under its key.
pub fn finish_stats(host: &str, slug: &str, found: Option<String>) -> (r: Result<LinkInfo, ManageError>)
    ensures
        found is None ==> r == Err::<LinkInfo, ManageError>(ManageError::NotFound),
        found is Some ==> match json_record(found->Some_0@) {
            Some(rec) => (r matches Ok(info) && info@ == (host@, slug@, rec.0, rec.1)),
            None => r == Err::<LinkInfo, ManageError>(ManageError::Corrupt),
        },
{
    match found {
        None => Err(ManageError::NotFound),
        Some(text) => match decode(text.as_str()) {
            Ok(rec) => Ok(LinkInfo {
                host: string_of(chars_of(host).as_slice()),
                slug: string_of(chars_of(slug).as_slice()),
                redirect_url: rec.redirect_url,
                hits: rec.hits,
            }),
            Err(_) => Err(ManageError::Corrupt),
        },
    }
}

/// The listing of `host` from the keys under its prefix and what the store
/// held under each: entries without a record are left out.
pub fn finish_list(host: &str, entries: Vec<(String, Option<String>)>) -> (r: Vec<LinkInfo>)
    ensures
        r@.map_values(|i: LinkInfo| i@) == list_spec(host@, entries@),
{
    let mut out: Vec<LinkInfo> = Vec::new();
    let mut i: usize = 0;
    while i < entries.len()
        invariant
            i <= entries@.len(),
            out@.map_values(|x: LinkInfo| x@) == list_spec(host@, entries@.subrange(0, i as int)),
        decreases entries@.len() - i,
    {
        let ghost before = out@;
        assert(entries@.subrange(0, i + 1).drop_last() == entries@.subrange(0, i as int));
        let entry = &entries[i];
        if let Some(text) = &entry.1 {
            if let Ok(rec) = decode(text.as_str()) {
                let info = LinkInfo {
                    host: string_of(chars_of(host).as_slice()),
                    slug: slug_from_key(host, entry.0.as_str()),
                    redirect_url: rec.redirect_url,
                    hits: rec.hits,
                };
                out.push(info);
                assert(out@.map_values(|x: LinkInfo| x@) == before.map_values(|x: LinkInfo| x@).push(info@));
            }
        }
        i = i + 1;
    }
    assert(entries@.subrange(0, entries@.len() as int) == entries@);
    out
}

/// Once a creation has written its record, a second creation of the same
/// slug under the same host finds the key taken and fails with a conflict.
pub proof fn lemma_create_twice_conflicts(store: Map<Seq<char>, Seq<char>>, host: Seq<char>, slug: Seq<char>, url: Seq<char>)
    ensures
        ({
            let k = key_spec(host, normalize_spec(slug));
            let after = store.insert(k, encoded(url, 0u64));
            create_outcome(after.contains_key(k)) == Err::<(), ManageError>(ManageError::Conflict)
        }),
{
}

} // verus!
