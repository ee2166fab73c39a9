//! The handlers of the three routes. Each takes what the store found as a plain
//! value, so that whoever talks to the store does only that.

use crate::gate::{authorize, authorize_spec, confirm, confirm_spec, cookie_view, found_view, same_user};
use crate::response::{
    front_path, greeting, page, protected_path, redirect, rejection, AuthError, CookieChange,
    CookieChangeView, Response, ResponseView, OK,
};
use crate::session::{token_of, SessionError, SessionManager, Sessions, ID_LEN};
use crate::store::StoreError;
use crate::user::{Login, LoginView, User, UserView};
use vstd::prelude::*;

verus! {

/// The login form of a request as a mathematical value; `None` is a form that
/// lacks a field.
pub open spec fn form_view(form: Option<Login>) -> Option<LoginView> {
    match form {
        Some(login) => Some(login@),
        None => None,
    }
}

/// The account that a login form opens, given what the store found for its e-mail
/// address: the account found, if it has that address and the password submitted
/// is its stored one, letter for letter. A wrong password is answered as an unknown
/// address is.
pub open spec fn check_credentials_spec(form: LoginView, found: Result<UserView, StoreError>) -> Result<
    UserView,
    AuthError,
> {
    match found {
        Ok(user) => if user.email == form.email && user.password_hash == form.password {
            Ok(user)
        } else {
            Err(AuthError::CredentialLookupFailed(StoreError::NotFound))
        },
        Err(e) => Err(AuthError::CredentialLookupFailed(e)),
    }
}

/// The account that a request to log in is for, or the error that answers it.
pub open spec fn login_account(form: Option<LoginView>, found: Result<UserView, StoreError>) -> Result<
    UserView,
    AuthError,
> {
    match form {
        Some(login) => check_credentials_spec(login, found),
        None => Err(AuthError::MalformedInput),
    }
}

/// The sessions after a request to log in, and the answer to it, where a new
/// session would take the identifier `id`.
pub open spec fn login_spec(
    sessions: Sessions,
    form: Option<LoginView>,
    found: Result<UserView, StoreError>,
    id: Seq<u8>,
    now: u64,
) -> (Sessions, ResponseView) {
    match login_account(form, found) {
        Ok(user) => if id.len() < ID_LEN {
            (sessions, rejection(AuthError::SessionNotCreated(SessionError::ShortId)))
        } else if !sessions.is_free(id) {
            (sessions, rejection(AuthError::SessionNotCreated(SessionError::Collision)))
        } else {
            (
                sessions.issue(id, user.id, now),
                redirect(protected_path(), CookieChangeView::Issue(token_of(sessions.key, id))),
            )
        },
        Err(e) => (sessions, rejection(e)),
    }
}

/// The sessions after a request to log out, and the answer to it.
pub open spec fn logout_spec(sessions: Sessions, cookie: Option<Seq<u8>>, now: u64) -> (
    Sessions,
    ResponseView,
) {
    match authorize_spec(sessions, cookie, now) {
        Ok(_) => (
            sessions.destroy(cookie.unwrap()),
            redirect(front_path(), CookieChangeView::Clear),
        ),
        Err(_) => (sessions, redirect(front_path(), CookieChangeView::Keep)),
    }
}

/// The answer to a request for the protected page, given what the store found for
/// the identifier that the session stands for.
pub open spec fn protected_spec(
    sessions: Sessions,
    cookie: Option<Seq<u8>>,
    found: Result<UserView, StoreError>,
    now: u64,
) -> ResponseView {
    match authorize_spec(sessions, cookie, now) {
        Ok(user_id) => match confirm_spec(user_id, found) {
            Ok(user) => page(OK, greeting(user.email)),
            Err(e) => rejection(e),
        },
        Err(e) => rejection(e),
    }
}

/// Decides whether a login form opens the account that the store found for its
/// e-mail address.
pub fn check_credentials(form: &Login, found: Result<User, StoreError>) -> (user: Result<
    User,
    AuthError,
>)
    ensures
        same_user(user, check_credentials_spec(form@, found_view(found))),
{
    match found {
        Ok(user) => if user.email == form.email && user.accepts(&form.password) {
            Ok(user)
        } else {
            Err(AuthError::CredentialLookupFailed(StoreError::NotFound))
        },
        Err(e) => Err(AuthError::CredentialLookupFailed(e)),
    }
}

/// The account that a request to log in is for.
fn account_of(form: &Option<Login>, found: Result<User, StoreError>) -> (user: Result<
    User,
    AuthError,
>)
    ensures
        same_user(user, login_account(form_view(*form), found_view(found))),
{
    match form {
        Some(login) => check_credentials(login, found),
        None => Err(AuthError::MalformedInput),
    }
}

/// Handles a request to log in, where a new session takes the identifier `id`.
///
/// `found` is what the store gave for the form's e-mail address. On success the
/// session is created and the answer redirects to the protected page and sets the
/// cookie; otherwise the sessions stay as they are.
pub fn login_with_id(
    sessions: &mut SessionManager,
    form: &Option<Login>,
    found: Result<User, StoreError>,
    id: Vec<u8>,
    now: u64,
) -> (response: Response)
    requires
        old(sessions).wf(),
    ensures
        final(sessions).wf(),
        (final(sessions)@, response@) == login_spec(
            old(sessions)@,
            form_view(*form),
            found_view(found),
            id@,
            now,
        ),
{
    let user = match account_of(form, found) {
        Ok(user) => user,
        Err(e) => { return Response::rejection(e); },
    };
    match sessions.issue(user.id, id, now) {
        Ok(token) => Response::redirect("/protected", CookieChange::Issue(token)),
        Err(e) => Response::rejection(AuthError::SessionNotCreated(e)),
    }
}

/// Handles a request to log in.
///
/// The identifier of the new session is drawn at random, so the outcome is stated
/// for whatever was drawn. Where the credentials do not open an account, the
/// sessions stay as they are and the answer is that error's. Where they do, either
/// the request was handled as `login_with_id` handles it with some free identifier
/// of `ID_LEN` bytes, or no session could be created and nothing changed.
pub fn login_handler(
    sessions: &mut SessionManager,
    form: &Option<Login>,
    found: Result<User, StoreError>,
    now: u64,
) -> (response: Response)
    requires
        old(sessions).wf(),
    ensures
        final(sessions).wf(),
        match login_account(form_view(*form), found_view(found)) {
            Ok(user) => {
                ||| exists|id: Seq<u8>|
                    #![trigger token_of(old(sessions)@.key, id)]
                    id.len() == ID_LEN && old(sessions)@.is_free(id) && (
                        final(sessions)@,
                        response@,
                    ) == login_spec(old(sessions)@, form_view(*form), found_view(found), id, now)
                ||| final(sessions)@ == old(sessions)@ && (response@ == rejection(
                    AuthError::SessionNotCreated(SessionError::Collision),
                ) || response@ == rejection(AuthError::SessionNotCreated(SessionError::NoEntropy)))
            },
            Err(e) => final(sessions)@ == old(sessions)@ && response@ == rejection(e),
        },
{
    let user = match account_of(form, found) {
        Ok(user) => user,
        Err(e) => { return Response::rejection(e); },
    };
    match sessions.create(user.id, now) {
        Ok(token) => Response::redirect("/protected", CookieChange::Issue(token)),
        Err(e) => Response::rejection(AuthError::SessionNotCreated(e)),
    }
}

/// Handles a request to log out: destroys the session that the cookie names, if
/// there is one, and redirects to the front page either way.
pub fn logout_handler(sessions: &mut SessionManager, cookie: &Option<Vec<u8>>, now: u64) -> (response:
    Response)
    requires
        old(sessions).wf(),
    ensures
        final(sessions).wf(),
        (final(sessions)@, response@) == logout_spec(old(sessions)@, cookie_view(*cookie), now),
{
    match authorize(sessions, cookie, now) {
        Ok(_) => {
            match cookie {
                Some(token) => sessions.destroy(token.as_slice()),
                None => {},
            }
            Response::redirect("/", CookieChange::Clear)
        },
        Err(_) => Response::redirect("/", CookieChange::Keep),
    }
}

/// Renders the protected page for the account that was let through.
pub fn protected_handler(user: &User) -> (response: Response)
    ensures
        response@ == page(OK, greeting(user@.email)),
{
    Response::greeting(user.email.as_str())
}

/// The protected route behind its gate: resolves the cookie, checks what the store
/// found against the session, and only then renders the page.
pub fn protected_route(
    sessions: &SessionManager,
    cookie: &Option<Vec<u8>>,
    found: Result<User, StoreError>,
    now: u64,
) -> (response: Response)
    requires
        sessions.wf(),
    ensures
        response@ == protected_spec(sessions@, cookie_view(*cookie), found_view(found), now),
{
    let user_id = match authorize(sessions, cookie, now) {
        Ok(user_id) => user_id,
        Err(e) => { return Response::rejection(e); },
    };
    match confirm(user_id, found) {
        Ok(user) => protected_handler(&user),
        Err(e) => Response::rejection(e),
    }
}

} // verus!
