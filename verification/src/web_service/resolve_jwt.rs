//! Who a request comes from, read leniently from its `Authorization`
//! header, and where `Bearer ` stands in a header.
use vstd::prelude::*;

use crate::credential_service::{decode_outcome, CredentialService, CredentialServiceError};
use crate::models::UserId;

verus! {

/// `Bearer ` (with its space) starts at position `i` of `header`.
pub open spec fn bearer_at(header: Seq<char>, i: int) -> bool {
    0 <= i && i + 7 <= header.len() && header.subrange(i, i + 7) == "Bearer "@
}

/// Position `i` is the first at which `Bearer ` starts in `header`.
pub open spec fn is_first_bearer(header: Seq<char>, i: int) -> bool {
    bearer_at(header, i) && forall|j: int| 0 <= j < i ==> !bearer_at(header, j)
}

/// The token of a header read leniently: what follows the first `Bearer `,
/// whatever stands before it.
pub open spec fn first_bearer_token(header: Seq<char>) -> Option<Seq<char>> {
    if exists|i: int| is_first_bearer(header, i) {
        Some(header.skip((choose|i: int| is_first_bearer(header, i)) + 7))
    } else {
        None
    }
}

/// Whether `Bearer ` starts at position `i` of `header`.
fn bearer_at_exec(header: &str, n: usize, i: usize) -> (b: bool)
    requires
        n == header@.len(),
        i + 7 <= n,
    ensures
        b == bearer_at(header@, i as int),
{
    let pattern = "Bearer ";
    proof {
        reveal_strlit("Bearer ");
    }
    let mut k: usize = 0;
    while k < 7
        invariant
            n == header@.len(),
            i + 7 <= n,
            pattern@ == "Bearer "@,
            pattern@.len() == 7,
            k <= 7,
            forall|m: int| 0 <= m < k ==> header@[i + m] == pattern@[m],
        decreases 7 - k,
    {
        if header.get_char(i + k) != pattern.get_char(k) {
            proof {
                assert(header@.subrange(i as int, i + 7)[k as int] != "Bearer "@[k as int]);
            }
            return false;
        }
        k = k + 1;
    }
    assert(header@.subrange(i as int, i + 7) =~= "Bearer "@);
    true
}

/// The first position at which `Bearer ` starts in `header`, if any.
pub fn find_bearer(header: &str) -> (r: Option<usize>)
    ensures
        match r {
            Some(i) => is_first_bearer(header@, i as int),
            None => forall|i: int| !bearer_at(header@, i),
        },
{
    let n = header.unicode_len();
    if n < 7 {
        return None;
    }
    let mut i: usize = 0;
    while i <= n - 7
        invariant
            n == header@.len(),
            7 <= n,
            i <= n - 6,
            forall|j: int| 0 <= j < i ==> !bearer_at(header@, j),
        decreases n - i,
    {
        if bearer_at_exec(header, n, i) {
            return Some(i);
        }
        i = i + 1;
    }
    None
}

/// The user a request comes from, read leniently: its `Authorization`
/// header (absent when it is not valid visible text) must hold `Bearer `, and
/// the token after the first `Bearer ` must pass the token check.
pub fn resolve_jwt(credential_service: &CredentialService, auth_header: Option<&str>) -> (r: Result<
    UserId,
    CredentialServiceError,
>)
    ensures
        match auth_header {
            None => r == Err::<UserId, CredentialServiceError>(
                CredentialServiceError::NoCredentialFound,
            ),
            Some(header) => match first_bearer_token(header@) {
                None => r == Err::<UserId, CredentialServiceError>(
                    CredentialServiceError::NoCredentialFound,
                ),
                Some(token) => decode_outcome(token, r),
            },
        },
{
    let header = match auth_header {
        None => return Err(CredentialServiceError::NoCredentialFound),
        Some(header) => header,
    };
    match find_bearer(header) {
        None => Err(CredentialServiceError::NoCredentialFound),
        Some(i) => {
            proof {
                let j = choose|j: int| is_first_bearer(header@, j);
                assert(j == i as int) by {
                    if j < i {
                        assert(!bearer_at(header@, j));
                    } else if i < j {
                        assert(!bearer_at(header@, i as int));
                    }
                }
            }
            let n = header.unicode_len();
            let jwt = header.substring_char(i + 7, n);
            assert(jwt@ == header@.skip(i + 7));
            credential_service.try_decode(jwt)
        },
    }
}

} // verus!
