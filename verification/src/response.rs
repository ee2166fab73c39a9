//! What a handler answers, and the one place where an error becomes a status code.

use crate::session::SessionError;
use crate::store::StoreError;
use vstd::prelude::*;
use vstd::string::*;

verus! {

/// The status of a page that was found and served.
pub const OK: u16 = 200;

/// The status of a redirect that is followed with `GET`.
pub const SEE_OTHER: u16 = 303;

/// The status of a request whose form lacks a field.
pub const BAD_REQUEST: u16 = 400;

/// The status of a request that carries no valid credentials or session.
pub const UNAUTHORIZED: u16 = 401;

/// The status of a path that names nothing.
pub const NOT_FOUND: u16 = 404;

/// The status of a request that failed on the server's side.
pub const INTERNAL_SERVER_ERROR: u16 = 500;

/// Why a request was turned away.
#[derive(Clone, Copy, Debug, PartialEq, Eq, Structural)]
pub enum AuthError {
    /// The login form lacks a field.
    MalformedInput,
    /// The credentials match no account, or the store could not be asked.
    CredentialLookupFailed(StoreError),
    /// The request carries no session cookie, or one that is altered, unknown or expired.
    SessionInvalid,
    /// The session is in order, but no account stands behind it.
    Unauthorized,
    /// The credentials were in order, but no session could be created.
    SessionNotCreated(SessionError),
}

/// The status code that answers an error.
pub open spec fn status_of(error: AuthError) -> u16 {
    match error {
        AuthError::MalformedInput => BAD_REQUEST,
        AuthError::CredentialLookupFailed(StoreError::NotFound) => UNAUTHORIZED,
        AuthError::CredentialLookupFailed(StoreError::Unavailable) => INTERNAL_SERVER_ERROR,
        AuthError::SessionInvalid => UNAUTHORIZED,
        AuthError::Unauthorized => UNAUTHORIZED,
        AuthError::SessionNotCreated(_) => INTERNAL_SERVER_ERROR,
    }
}

impl AuthError {
    /// The status code that answers this error.
    pub fn status(&self) -> (code: u16)
        ensures
            code == status_of(*self),
    {
        match self {
            AuthError::MalformedInput => BAD_REQUEST,
            AuthError::CredentialLookupFailed(StoreError::NotFound) => UNAUTHORIZED,
            AuthError::CredentialLookupFailed(StoreError::Unavailable) => INTERNAL_SERVER_ERROR,
            AuthError::SessionInvalid => UNAUTHORIZED,
            AuthError::Unauthorized => UNAUTHORIZED,
            AuthError::SessionNotCreated(_) => INTERNAL_SERVER_ERROR,
        }
    }
}

/// What a response does to the client's session cookie.
#[derive(Debug)]
pub enum CookieChange {
    /// The cookie stays as it is.
    Keep,
    /// The cookie is set to this token.
    Issue(Vec<u8>),
    /// The cookie is removed.
    Clear,
}

/// A `CookieChange` as a mathematical value.
pub ghost enum CookieChangeView {
    Keep,
    Issue(Seq<u8>),
    Clear,
}

impl View for CookieChange {
    type V = CookieChangeView;

    open spec fn view(&self) -> CookieChangeView {
        match self {
            CookieChange::Keep => CookieChangeView::Keep,
            CookieChange::Issue(token) => CookieChangeView::Issue(token@),
            CookieChange::Clear => CookieChangeView::Clear,
        }
    }
}

/// The answer to one request.
#[derive(Debug)]
pub struct Response {
    pub status: u16,
    /// Where a redirect leads.
    pub location: Option<String>,
    pub body: String,
    pub cookie: CookieChange,
}

/// A `Response` as a mathematical value.
pub ghost struct ResponseView {
    pub status: u16,
    pub location: Option<Seq<char>>,
    pub body: Seq<char>,
    pub cookie: CookieChangeView,
}

impl View for Response {
    type V = ResponseView;

    open spec fn view(&self) -> ResponseView {
        ResponseView {
            status: self.status,
            location: match self.location {
                Some(to) => Some(to@),
                None => None,
            },
            body: self.body@,
            cookie: self.cookie@,
        }
    }
}

/// The path of the protected page.
pub open spec fn protected_path() -> Seq<char> {
    "/protected"@
}

/// The path of the front page.
pub open spec fn front_path() -> Seq<char> {
    "/"@
}

/// The text before the e-mail address in the greeting.
pub open spec fn greeting_head() -> Seq<char> {
    "<h1>Hello, "@
}

/// The text after the e-mail address in the greeting: the logout link.
pub open spec fn greeting_tail() -> Seq<char> {
    "</h1><br /><a href='/logout'>logout</a>"@
}

/// The page that greets the account with the e-mail address `email`.
pub open spec fn greeting(email: Seq<char>) -> Seq<char> {
    greeting_head() + email + greeting_tail()
}

/// The text that goes with a status code of an error.
pub open spec fn reason(status: u16) -> Seq<char> {
    if status == BAD_REQUEST {
        "Bad Request"@
    } else if status == UNAUTHORIZED {
        "Unauthorized"@
    } else if status == NOT_FOUND {
        "Not Found"@
    } else {
        "Internal Server Error"@
    }
}

/// A redirect to `to`.
pub open spec fn redirect(to: Seq<char>, cookie: CookieChangeView) -> ResponseView {
    ResponseView { status: SEE_OTHER, location: Some(to), body: Seq::empty(), cookie }
}

/// A page with the given status.
pub open spec fn page(status: u16, body: Seq<char>) -> ResponseView {
    ResponseView { status, location: None, body, cookie: CookieChangeView::Keep }
}

/// The answer to a request that was turned away. It depends on the status code
/// alone, so two errors with one code cannot be told apart by the client.
pub open spec fn rejection(error: AuthError) -> ResponseView {
    page(status_of(error), reason(status_of(error)))
}

/// Whether `part` occurs in `text`.
pub open spec fn contains(text: Seq<char>, part: Seq<char>) -> bool {
    exists|at: int| 0 <= at <= text.len() - part.len() && #[trigger] text.subrange(at, at + part.len()) == part
}

/// The greeting of an account contains its e-mail address.
pub proof fn lemma_greeting_contains(email: Seq<char>)
    ensures
        contains(greeting(email), email),
{
    let at = greeting_head().len() as int;
    assert(greeting(email).subrange(at, at + email.len()) =~= email);
}

impl Response {
    /// A redirect to `to`.
    pub fn redirect(to: &str, cookie: CookieChange) -> (response: Self)
        ensures
            response@ == redirect(to@, cookie@),
    {
        Response {
            status: SEE_OTHER,
            location: Some(String::from_str(to)),
            body: String::new(),
            cookie,
        }
    }

    /// The page that greets the account with the e-mail address `email`.
    pub fn greeting(email: &str) -> (response: Self)
        ensures
            response@ == page(OK, greeting(email@)),
    {
        let mut body = String::from_str("<h1>Hello, ");
        body.append(email);
        body.append("</h1><br /><a href='/logout'>logout</a>");
        assert(body@ =~= greeting(email@));
        Response { status: OK, location: None, body, cookie: CookieChange::Keep }
    }

    /// The page that says that a path names nothing.
    pub fn not_found() -> (response: Self)
        ensures
            response@ == page(NOT_FOUND, reason(NOT_FOUND)),
    {
        Response {
            status: NOT_FOUND,
            location: None,
            body: String::from_str("Not Found"),
            cookie: CookieChange::Keep,
        }
    }

    /// The answer to a request that was turned away.
    pub fn rejection(error: AuthError) -> (response: Self)
        ensures
            response@ == rejection(error),
    {
        let status = error.status();
        let body = if status == BAD_REQUEST {
            String::from_str("Bad Request")
        } else if status == UNAUTHORIZED {
            String::from_str("Unauthorized")
        } else {
            String::from_str("Internal Server Error")
        };
        Response { status, location: None, body, cookie: CookieChange::Keep }
    }
}

} // verus!
