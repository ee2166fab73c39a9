//! What holds of the site whatever the requests are: statements over the
//! mathematical values of the site and its sessions, each proved from the
//! definitions that the handlers' contracts use.

use crate::hex;
use crate::mac::TAG_LEN;
use crate::response::{
    contains, front_path, greeting, lemma_greeting_contains, page, protected_path, redirect,
    CookieChangeView, BAD_REQUEST, OK, SEE_OTHER, UNAUTHORIZED,
};
use crate::session::{
    expiry, id_part, is_signed, lemma_token_parts, tag_part, token_of, Sessions, ID_LEN,
};
use crate::site::SiteView;
use crate::store::{has_email, has_id, lemma_by_email, lemma_by_id};
use crate::user::{LoginView, UserView};
use vstd::prelude::*;

verus! {

/// Whether an account of the table has this e-mail address and this password.
pub open spec fn matches_record(users: Seq<UserView>, form: LoginView) -> bool {
    exists|i: int|
        0 <= i < users.len() && (#[trigger] users[i]).email == form.email && users[i].password_hash
            == form.password
}

/// A login with the credentials of a stored account is answered with a redirect to
/// the protected page that sets the session cookie, and a later request for the
/// protected page with that cookie, made before the session expires, is answered
/// with status 200 and a page that contains the account's e-mail address.
///
/// The identifier of the new session is any that `login_with_id` accepts: long
/// enough and free.
pub proof fn login_opens_protected_page(
    site: SiteView,
    form: LoginView,
    id: Seq<u8>,
    now: u64,
    later: u64,
)
    requires
        site.wf(),
        matches_record(site.users, form),
        id.len() >= ID_LEN,
        site.sessions.is_free(id),
        later < expiry(now, site.sessions.ttl),
    ensures
        ({
            let token = token_of(site.sessions.key, id);
            let (after, response) = site.login(Some(form), id, now);
            &&& after.wf()
            &&& response == redirect(protected_path(), CookieChangeView::Issue(token))
            &&& after.protected(Some(token), later) == page(OK, greeting(form.email))
            &&& contains(after.protected(Some(token), later).body, form.email)
        }),
{
    let key = site.sessions.key;
    let token = token_of(key, id);
    let i = choose|i: int|
        0 <= i < site.users.len() && (#[trigger] site.users[i]).email == form.email
            && site.users[i].password_hash == form.password;
    let user = site.users[i];
    assert(has_email(site.users, form.email, i));
    lemma_by_email(site.users, form.email, i);
    assert(has_id(site.users, user.id, i));
    lemma_by_id(site.users, user.id, i);
    lemma_token_parts(key, id);
    lemma_greeting_contains(form.email);
    let (after, response) = site.login(Some(form), id, now);
    assert(after.sessions == site.sessions.issue(id, user.id, now));
    assert(after.sessions.resolve(token, later) == Some(user.id));
}

/// A login whose credentials match no stored account creates no session, and is
/// not answered with status 200: the site is left as it was, and so is the cookie.
pub proof fn failed_login_creates_no_session(
    site: SiteView,
    form: Option<LoginView>,
    id: Seq<u8>,
    now: u64,
)
    requires
        form.is_some() ==> !matches_record(site.users, form.unwrap()),
    ensures
        ({
            let (after, response) = site.login(form, id, now);
            &&& after == site
            &&& response.status == if form.is_some() {
                UNAUTHORIZED
            } else {
                BAD_REQUEST
            }
            &&& response.status != OK
            &&& response.cookie == CookieChangeView::Keep
        }),
{
    if form.is_some() {
        let login = form.unwrap();
        if exists|i: int| has_email(site.users, login.email, i) {
            let i = choose|i: int| has_email(site.users, login.email, i);
            assert(site.users[i].email == login.email);
        }
    }
}

/// No login is answered with status 200. Either it leaves the site and the cookie
/// as they were, or it creates the session of `id` and is answered with a redirect
/// to the protected page that sets the cookie to that session's token.
pub proof fn login_never_serves_a_page(site: SiteView, form: Option<LoginView>, id: Seq<u8>, now: u64)
    ensures
        ({
            let (after, response) = site.login(form, id, now);
            &&& response.status != OK
            &&& {
                ||| after == site && response.cookie == CookieChangeView::Keep
                ||| after.sessions.live.dom().contains(id) && response == redirect(
                    protected_path(),
                    CookieChangeView::Issue(token_of(site.sessions.key, id)),
                )
            }
        }),
{
}

/// After a logout, a request for the protected page with the same cookie is turned
/// away with status 401, at that moment and at any later one.
pub proof fn logout_closes_protected_page(site: SiteView, cookie: Seq<u8>, now: u64, later: u64)
    requires
        now <= later,
    ensures
        site.logout(Some(cookie), now).0.protected(Some(cookie), later).status == UNAUTHORIZED,
        site.logout(Some(cookie), now).0.sessions.resolve(cookie, later).is_none(),
{
}

/// No step breaks the sessions: creating a session under a free identifier,
/// destroying one and dropping the expired ones each leave well-formed sessions
/// well-formed. So at any time an identifier names at most one session, and with it
/// one account.
pub proof fn steps_keep_sessions_well_formed(
    sessions: Sessions,
    id: Seq<u8>,
    user_id: i64,
    token: Seq<u8>,
    now: u64,
)
    requires
        sessions.wf(),
    ensures
        sessions.is_free(id) ==> sessions.issue(id, user_id, now).wf(),
        sessions.destroy(token).wf(),
        sessions.purge(now).wf(),
{
}

/// A token that differs in a single byte from one that names a session resolves to
/// nobody, at any moment: neither to the account of the session nor to any other.
pub proof fn altered_token_resolves_to_nobody(
    sessions: Sessions,
    token: Seq<u8>,
    altered: Seq<u8>,
    at: int,
    now: u64,
)
    requires
        sessions.wf(),
        is_signed(sessions.key, token),
        sessions.live.dom().contains(id_part(token)),
        altered.len() == token.len(),
        0 <= at < token.len(),
        altered[at] != token[at],
        forall|i: int| 0 <= i < token.len() && i != at ==> altered[i] == token[i],
    ensures
        sessions.resolve(altered, now).is_none(),
{
    if is_signed(sessions.key, altered) && sessions.live.dom().contains(id_part(altered)) {
        hex::lemma_decode_one_digit(token, altered, at);
        let raw = hex::decode_spec(token);
        let raw_altered = hex::decode_spec(altered);
        let k = at / 2;
        if k < TAG_LEN {
            assert(id_part(altered) =~= id_part(token));
            assert(tag_part(token)[k] == raw[k]);
            assert(tag_part(altered)[k] == raw_altered[k]);
            assert(false);
        } else {
            assert(tag_part(altered) =~= tag_part(token));
            assert(id_part(token)[k - TAG_LEN] == raw[k]);
            assert(id_part(altered)[k - TAG_LEN] == raw_altered[k]);
            assert(id_part(altered) != id_part(token));
            assert(false);
        }
    }
}

/// Destroying a token that names no live session changes nothing.
pub proof fn destroy_without_session_changes_nothing(sessions: Sessions, token: Seq<u8>)
    requires
        !sessions.live.dom().contains(id_part(token)),
    ensures
        sessions.destroy(token) == sessions,
{
    assert(sessions.live.remove(id_part(token)) =~= sessions.live);
}

/// Destroying a token twice is destroying it once.
pub proof fn destroy_is_idempotent(sessions: Sessions, token: Seq<u8>)
    ensures
        sessions.destroy(token).destroy(token) == sessions.destroy(token),
{
    if is_signed(sessions.key, token) {
        let once = sessions.destroy(token);
        assert(once.live.remove(id_part(token)) =~= once.live);
    }
}

/// Two logouts in a row are both answered with a redirect to the front page, and
/// the second changes nothing.
pub proof fn second_logout_changes_nothing(
    site: SiteView,
    cookie: Option<Seq<u8>>,
    now: u64,
    later: u64,
)
    requires
        now <= later,
    ensures
        ({
            let (first, first_response) = site.logout(cookie, now);
            let (second, second_response) = first.logout(cookie, later);
            &&& first_response.status == SEE_OTHER
            &&& first_response.location == Some(front_path())
            &&& second_response == redirect(front_path(), CookieChangeView::Keep)
            &&& second == first
        }),
{
}

} // verus!
