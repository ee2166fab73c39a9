//! A whole site in one value: the credential table and the session manager, behind
//! the three routes.

use crate::gate::{authorize, authorize_spec, cookie_view};
use crate::handlers::{
    form_view, login_account, login_handler, login_spec, login_with_id, logout_handler, logout_spec,
    protected_route, protected_spec,
};
use crate::response::{page, reason, rejection, AuthError, Response, ResponseView, NOT_FOUND};
use crate::session::{token_of, SessionError, SessionManager, Sessions, ID_LEN};
use crate::store::{by_email, by_id, keys_unique, StoreError, UserTable};
use crate::user::{Login, LoginView, User, UserView};
use vstd::prelude::*;

verus! {

/// A site as a mathematical value.
pub ghost struct SiteView {
    pub users: Seq<UserView>,
    pub sessions: Sessions,
}

/// What the store of a site finds for the e-mail address of a login form.
pub open spec fn lookup_for_login(users: Seq<UserView>, form: Option<LoginView>) -> Result<
    UserView,
    StoreError,
> {
    match form {
        Some(login) => by_email(users, login.email),
        None => Err(StoreError::NotFound),
    }
}

/// What the store of a site finds for the session of a request.
pub open spec fn lookup_for_session(site: SiteView, cookie: Option<Seq<u8>>, now: u64) -> Result<
    UserView,
    StoreError,
> {
    match authorize_spec(site.sessions, cookie, now) {
        Ok(user_id) => by_id(site.users, user_id),
        Err(_) => Err(StoreError::NotFound),
    }
}

impl SiteView {
    /// The table's keys are unique and the sessions are well-formed.
    pub open spec fn wf(self) -> bool {
        keys_unique(self.users) && self.sessions.wf()
    }

    /// The account that a login form opens on this site, or the error that answers it.
    pub open spec fn account(self, form: Option<LoginView>) -> Result<UserView, AuthError> {
        login_account(form, lookup_for_login(self.users, form))
    }

    /// What a login may come to when the identifier of the new session is drawn at
    /// random. Where the form opens no account, the site stays as it is and the
    /// answer is that error's. Where it opens one, either the login went as it goes
    /// with some free identifier of `ID_LEN` bytes, or no session could be created
    /// and the site stays as it is.
    pub open spec fn login_drawn(
        self,
        form: Option<LoginView>,
        now: u64,
        after: SiteView,
        response: ResponseView,
    ) -> bool {
        match self.account(form) {
            Ok(_) => {
                ||| exists|id: Seq<u8>|
                    #![trigger token_of(self.sessions.key, id)]
                    id.len() == ID_LEN && self.sessions.is_free(id) && (after, response)
                        == self.login(form, id, now)
                ||| after == self && (response == rejection(
                    AuthError::SessionNotCreated(SessionError::Collision),
                ) || response == rejection(AuthError::SessionNotCreated(SessionError::NoEntropy)))
            },
            Err(e) => after == self && response == rejection(e),
        }
    }

    /// The site after `POST /login`, and the answer, where a new session would take
    /// the identifier `id`.
    pub open spec fn login(self, form: Option<LoginView>, id: Seq<u8>, now: u64) -> (
        SiteView,
        ResponseView,
    ) {
        let outcome = login_spec(
            self.sessions,
            form,
            lookup_for_login(self.users, form),
            id,
            now,
        );
        (SiteView { sessions: outcome.0, ..self }, outcome.1)
    }

    /// The site after `GET /logout`, and the answer.
    pub open spec fn logout(self, cookie: Option<Seq<u8>>, now: u64) -> (SiteView, ResponseView) {
        let outcome = logout_spec(self.sessions, cookie, now);
        (SiteView { sessions: outcome.0, ..self }, outcome.1)
    }

    /// The answer to `GET /protected`.
    pub open spec fn protected(self, cookie: Option<Seq<u8>>, now: u64) -> ResponseView {
        protected_spec(self.sessions, cookie, lookup_for_session(self, cookie, now), now)
    }
}

/// The routes of the site.
#[derive(Debug)]
pub enum Request {
    /// `POST /login` with its form; `None` where the form lacks a field.
    Login(Option<Login>),
    /// `GET /logout`.
    Logout,
    /// `GET /protected`.
    Protected,
    /// Any other path: a file of the site, which this value does not hold.
    Asset(String),
}

/// A site: the accounts and the sessions, with nothing shared behind its back.
pub struct Site {
    users: UserTable,
    sessions: SessionManager,
}

impl View for Site {
    type V = SiteView;

    closed spec fn view(&self) -> SiteView {
        SiteView { users: self.users@, sessions: self.sessions@ }
    }
}

impl Site {
    /// The invariant of the site's parts.
    pub closed spec fn wf(&self) -> bool {
        self.users.wf() && self.sessions.wf()
    }

    /// A well-formed site stands for a well-formed value.
    pub proof fn lemma_view_wf(&self)
        requires
            self.wf(),
        ensures
            self@.wf(),
    {
        self.sessions.lemma_view_wf();
    }

    /// A site over the given accounts and sessions.
    pub fn new(users: UserTable, sessions: SessionManager) -> (site: Self)
        requires
            users.wf(),
            sessions.wf(),
        ensures
            site.wf(),
            site@ == (SiteView { users: users@, sessions: sessions@ }),
    {
        Site { users, sessions }
    }

    /// What the store finds for the e-mail address of a login form.
    fn find_for_login(&self, form: &Option<Login>) -> (found: Result<User, StoreError>)
        requires
            self.wf(),
        ensures
            crate::gate::found_view(found) == lookup_for_login(self@.users, form_view(*form)),
    {
        match form {
            Some(login) => self.users.find_by_email(&login.email),
            None => Err(StoreError::NotFound),
        }
    }

    /// Handles `POST /login`, where a new session takes the identifier `id`.
    pub fn login_with_id(&mut self, form: &Option<Login>, id: Vec<u8>, now: u64) -> (response:
        Response)
        requires
            old(self).wf(),
        ensures
            final(self).wf(),
            (final(self)@, response@) == old(self)@.login(form_view(*form), id@, now),
    {
        let found = self.find_for_login(form);
        login_with_id(&mut self.sessions, form, found, id, now)
    }

    /// Handles `POST /login` with a session identifier drawn at random.
    pub fn login(&mut self, form: &Option<Login>, now: u64) -> (response: Response)
        requires
            old(self).wf(),
        ensures
            final(self).wf(),
            old(self)@.login_drawn(form_view(*form), now, final(self)@, response@),
    {
        let found = self.find_for_login(form);
        let response = login_handler(&mut self.sessions, form, found, now);
        proof {
            let before = old(self)@;
            let form_v = form_view(*form);
            let found_v = lookup_for_login(before.users, form_v);
            if before.account(form_v).is_ok() && !(self@ == before) {
                let id = choose|id: Seq<u8>|
                    #![trigger token_of(before.sessions.key, id)]
                    id.len() == ID_LEN && before.sessions.is_free(id) && (
                        self@.sessions,
                        response@,
                    ) == login_spec(before.sessions, form_v, found_v, id, now);
                assert((self@, response@) == before.login(form_v, id, now));
            }
        }
        response
    }

    /// Handles `GET /logout`.
    pub fn logout(&mut self, cookie: &Option<Vec<u8>>, now: u64) -> (response: Response)
        requires
            old(self).wf(),
        ensures
            final(self).wf(),
            (final(self)@, response@) == old(self)@.logout(cookie_view(*cookie), now),
    {
        logout_handler(&mut self.sessions, cookie, now)
    }

    /// Handles `GET /protected`.
    pub fn protected(&self, cookie: &Option<Vec<u8>>, now: u64) -> (response: Response)
        requires
            self.wf(),
        ensures
            response@ == self@.protected(cookie_view(*cookie), now),
    {
        let found = match authorize(&self.sessions, cookie, now) {
            Ok(user_id) => self.users.find_by_id(user_id),
            Err(_) => Err(StoreError::NotFound),
        };
        protected_route(&self.sessions, cookie, found, now)
    }

    /// Drops the sessions that no longer count at `now`. No answer changes by it.
    pub fn expire(&mut self, now: u64)
        requires
            old(self).wf(),
        ensures
            final(self).wf(),
            final(self)@ == (SiteView { sessions: old(self)@.sessions.purge(now), ..old(self)@ }),
    {
        self.sessions.purge(now);
    }

    /// Answers one request: dispatches it to the handler of its route.
    ///
    /// A login is answered as `login` answers it, a logout as `logout`, a request
    /// for the protected page as `protected`. A request for any other path is
    /// answered with the not-found page, since the site holds no files, and
    /// changes nothing.
    pub fn handle(&mut self, request: &Request, cookie: &Option<Vec<u8>>, now: u64) -> (response:
        Response)
        requires
            old(self).wf(),
        ensures
            final(self).wf(),
            match *request {
                Request::Login(form) => old(self)@.login_drawn(
                    form_view(form),
                    now,
                    final(self)@,
                    response@,
                ),
                Request::Logout => (final(self)@, response@) == old(self)@.logout(
                    cookie_view(*cookie),
                    now,
                ),
                Request::Protected => final(self)@ == old(self)@ && response@ == old(
                    self,
                )@.protected(cookie_view(*cookie), now),
                Request::Asset(_) => final(self)@ == old(self)@ && response@ == page(
                    NOT_FOUND,
                    reason(NOT_FOUND),
                ),
            },
    {
        match request {
            Request::Login(form) => self.login(form, now),
            Request::Logout => self.logout(cookie, now),
            Request::Protected => self.protected(cookie, now),
            Request::Asset(_) => Response::not_found(),
        }
    }
}

} // verus!
