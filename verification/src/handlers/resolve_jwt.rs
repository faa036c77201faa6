//! Who a request comes from, read from its `Authorization` header.
use vstd::prelude::*;

use crate::credential_service::{decode_outcome, CredentialService, CredentialServiceError};
use crate::models::UserId;
use crate::web_service::resolve_jwt::{
    bearer_at, find_bearer, first_bearer_token, is_first_bearer,
};

verus! {

/// The token of a well-formed header: what follows `Bearer ` when the
/// header starts with it.
pub open spec fn bearer_token(header: Seq<char>) -> Option<Seq<char>> {
    if bearer_at(header, 0) {
        Some(header.skip(7))
    } else {
        None
    }
}

/// The user a request comes from: its `Authorization` header (absent when
/// it is not valid visible text) must start with `Bearer `, and the token
/// after it must pass the token check.
pub fn resolve_jwt(credential_service: &CredentialService, auth_header: Option<&str>) -> (r: Result<
    UserId,
    CredentialServiceError,
>)
    ensures
        match auth_header {
            None => r == Err::<UserId, CredentialServiceError>(
                CredentialServiceError::NoCredentialFound,
            ),
            Some(header) => match bearer_token(header@) {
                None => r == Err::<UserId, CredentialServiceError>(
                    CredentialServiceError::NoCredentialFound,
                ),
                Some(token) => decode_outcome(token, r),
            },
        },
{
    let header = match auth_header {
        None => return Err(CredentialServiceError::NoCredentialFound),
        Some(header) => header,
    };
    match find_bearer(header) {
        None => Err(CredentialServiceError::NoCredentialFound),
        Some(i) => {
            if i != 0 {
                // something stands before `Bearer `: a malformed header
                return Err(CredentialServiceError::NoCredentialFound);
            }
            let n = header.unicode_len();
            let jwt = header.substring_char(7, n);
            assert(jwt@ == header@.skip(7));
            credential_service.try_decode(jwt)
        },
    }
}

/// On a header that starts with `Bearer `, the lenient reading finds the
/// same token as the strict one; the lenient reading only differs by also
/// accepting headers where something stands before the first `Bearer `.
pub proof fn law_readings_agree_on_well_formed_headers(header: Seq<char>)
    ensures
        bearer_token(header) is Some ==> first_bearer_token(header) == bearer_token(header),
        bearer_token(header) is Some ==> first_bearer_token(header) is Some,
{
    if bearer_token(header) is Some {
        assert(is_first_bearer(header, 0));
        let j = choose|j: int| is_first_bearer(header, j);
        assert(j == 0) by {
            if j > 0 {
                assert(!bearer_at(header, 0));
            }
        }
    }
}

} // verus!
