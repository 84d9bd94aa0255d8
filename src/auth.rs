//! The bearer-token gate in front of the management operations.
use vstd::prelude::*;
use crate::text::{chars_of, chars_eq, push_all};

verus! {

/// Why a management request was turned away.
#[derive(Debug, PartialEq, Eq, Clone, Copy)]
pub enum AuthError {
    /// The credential does not match the configured secret.
    Unauthorized,
    /// No secret is configured, so no request can be admitted.
    ServerMisconfigured,
}

/// The header value that admits a request under `secret`.
pub open spec fn bearer(secret: Seq<char>) -> Seq<char> {
    seq!['B', 'e', 'a', 'r', 'e', 'r', ' '] + secret
}

/// The outcome of checking `header` against `secret`.
pub open spec fn authorize_spec(header: Seq<char>, secret: Seq<char>) -> Result<(), AuthError> {
    if secret.len() == 0 {
        Err(AuthError::ServerMisconfigured)
    } else if header == bearer(secret) {
        Ok(())
    } else {
        Err(AuthError::Unauthorized)
    }
}

/// Admits the request only when `header` is exactly `Bearer <secret>` and a
/// secret is configured.
pub fn authorize(header: &str, secret: &str) -> (r: Result<(), AuthError>)
    ensures
        r == authorize_spec(header@, secret@),
{
    let s = chars_of(secret);
    if s.len() == 0 {
        return Err(AuthError::ServerMisconfigured);
    }
    let scheme = ['B', 'e', 'a', 'r', 'e', 'r', ' '];
    let mut expected: Vec<char> = Vec::new();
    push_all(&mut expected, &scheme);
    push_all(&mut expected, s.as_slice());
    assert(expected@ == bearer(secret@));
    let h = chars_of(header);
    if chars_eq(h.as_slice(), expected.as_slice()) {
        Ok(())
    } else {
        Err(AuthError::Unauthorized)
    }
}

/// With no secret configured every request is refused as a server fault,
/// whatever its header; otherwise an empty header or one other than
/// `Bearer <secret>` is refused as unauthorized.
pub proof fn lemma_auth_gate(header: Seq<char>, secret: Seq<char>)
    ensures
        secret.len() == 0 ==> authorize_spec(header, secret) == Err::<(), AuthError>(AuthError::ServerMisconfigured),
        secret.len() > 0 && header != bearer(secret) ==> authorize_spec(header, secret) == Err::<(), AuthError>(AuthError::Unauthorized),
        secret.len() > 0 && header.len() == 0 ==> authorize_spec(header, secret) == Err::<(), AuthError>(AuthError::Unauthorized),
{
    assert(bearer(secret).len() > 0);
}

} // verus!
