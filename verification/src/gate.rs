//! The authorization gate: what stands between a request and a protected page.
//!
//! The authorization works in two steps, with the lookup of the account between them. The
//! first resolves the session cookie to an identifier; the second lets the request through
//! only if the account that was looked up is the one the session stands for.

use crate::response::AuthError;
use crate::session::{SessionManager, Sessions};
use crate::store::StoreError;
use crate::user::{User, UserView};
use vstd::prelude::*;

verus! {

/// The cookie of a request as a mathematical value.
pub open spec fn cookie_view(cookie: Option<Vec<u8>>) -> Option<Seq<u8>> {
    match cookie {
        Some(token) => Some(token@),
        None => None,
    }
}

/// The identifier that a request may act for at `now`: that of the session its
/// cookie names. A request without a cookie, or with one that resolves to nobody,
/// has no valid session.
pub open spec fn authorize_spec(sessions: Sessions, cookie: Option<Seq<u8>>, now: u64) -> Result<
    i64,
    AuthError,
> {
    match cookie {
        Some(token) => match sessions.resolve(token, now) {
            Some(user_id) => Ok(user_id),
            None => Err(AuthError::SessionInvalid),
        },
        None => Err(AuthError::SessionInvalid),
    }
}

/// The account that a request for `user_id` is let through with, given what the
/// store found for that identifier. A session with no account behind it is turned
/// away, and so is an answer of the store that is not the account asked for.
pub open spec fn confirm_spec(user_id: i64, found: Result<UserView, StoreError>) -> Result<
    UserView,
    AuthError,
> {
    match found {
        Ok(user) => if user.id == user_id {
            Ok(user)
        } else {
            Err(AuthError::Unauthorized)
        },
        Err(StoreError::NotFound) => Err(AuthError::Unauthorized),
        Err(StoreError::Unavailable) => Err(
            AuthError::CredentialLookupFailed(StoreError::Unavailable),
        ),
    }
}

/// The relation between a result that holds an account and its mathematical value.
pub open spec fn same_user(got: Result<User, AuthError>, want: Result<UserView, AuthError>) -> bool {
    match got {
        Ok(user) => want == Ok::<UserView, AuthError>(user@),
        Err(e) => want == Err::<UserView, AuthError>(e),
    }
}

/// The lookup result as a mathematical value.
pub open spec fn found_view(found: Result<User, StoreError>) -> Result<UserView, StoreError> {
    match found {
        Ok(user) => Ok(user@),
        Err(e) => Err(e),
    }
}

/// The first step: resolves the session cookie of a request.
pub fn authorize(sessions: &SessionManager, cookie: &Option<Vec<u8>>, now: u64) -> (user_id: Result<
    i64,
    AuthError,
>)
    requires
        sessions.wf(),
    ensures
        user_id == authorize_spec(sessions@, cookie_view(*cookie), now),
{
    match cookie {
        Some(token) => match sessions.resolve(token.as_slice(), now) {
            Some(user_id) => Ok(user_id),
            None => Err(AuthError::SessionInvalid),
        },
        None => Err(AuthError::SessionInvalid),
    }
}

/// The second step: lets the request through with the account that the store
/// found for `user_id`, or turns it away.
pub fn confirm(user_id: i64, found: Result<User, StoreError>) -> (user: Result<User, AuthError>)
    ensures
        same_user(user, confirm_spec(user_id, found_view(found))),
{
    match found {
        Ok(user) => if user.id == user_id {
            Ok(user)
        } else {
            Err(AuthError::Unauthorized)
        },
        Err(StoreError::NotFound) => Err(AuthError::Unauthorized),
        Err(StoreError::Unavailable) => Err(
            AuthError::CredentialLookupFailed(StoreError::Unavailable),
        ),
    }
}

} // verus!
