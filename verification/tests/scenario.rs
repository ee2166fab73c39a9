use session_auth::response::{CookieChange, Response};
use session_auth::session::SessionManager;
use session_auth::site::{Request, Site};
use session_auth::store::UserTable;
use session_auth::user::{Login, User};

fn user(id: i64, email: &str, password_hash: &str) -> User {
    User { id, password_hash: password_hash.to_string(), email: email.to_string() }
}

fn form(email: &str, password: &str) -> Option<Login> {
    Some(Login { email: email.to_string(), password: password.to_string() })
}

fn seeded_site() -> Site {
    let mut users = UserTable::new();
    assert!(users.insert(user(1, "a@b.com", "secret")));
    Site::new(users, SessionManager::new((0u8..64).collect(), 3600))
}

fn issued(response: &Response) -> Vec<u8> {
    match &response.cookie {
        CookieChange::Issue(token) => token.clone(),
        other => panic!("no cookie was set: {:?}", other),
    }
}

#[test]
fn login_protected_logout_protected() {
    let mut site = seeded_site();

    let login = site.handle(&Request::Login(form("a@b.com", "secret")), &None, 1000);
    assert_eq!(login.status, 303);
    assert_eq!(login.location, Some("/protected".to_string()));
    let cookie = Some(issued(&login));

    let page = site.handle(&Request::Protected, &cookie, 1001);
    assert_eq!(page.status, 200);
    assert!(page.body.contains("a@b.com"));
    assert_eq!(page.body, "<h1>Hello, a@b.com</h1><br /><a href='/logout'>logout</a>");

    let logout = site.handle(&Request::Logout, &cookie, 1002);
    assert_eq!(logout.status, 303);
    assert_eq!(logout.location, Some("/".to_string()));
    assert!(matches!(logout.cookie, CookieChange::Clear));

    let after = site.handle(&Request::Protected, &cookie, 1003);
    assert_ne!(after.status, 200);
    assert_eq!(after.status, 401);
}

#[test]
fn login_with_wrong_password_is_unauthorized() {
    let mut site = seeded_site();
    let response = site.login(&form("a@b.com", "Secret"), 5);
    assert_eq!(response.status, 401);
    assert!(matches!(response.cookie, CookieChange::Keep));
    assert_eq!(response.location, None);
}

#[test]
fn login_with_unknown_email_looks_like_wrong_password() {
    let mut site = seeded_site();
    let unknown = site.login(&form("nobody@b.com", "secret"), 5);
    let wrong = site.login(&form("a@b.com", "guess"), 5);
    assert_eq!(unknown.status, 401);
    assert_eq!(unknown.status, wrong.status);
    assert_eq!(unknown.body, wrong.body);
    assert_eq!(unknown.body, "Unauthorized");
}

#[test]
fn login_without_form_is_bad_request() {
    let mut site = seeded_site();
    let response = site.login(&None, 5);
    assert_eq!(response.status, 400);
    assert_eq!(response.body, "Bad Request");
}

#[test]
fn failed_login_opens_nothing() {
    let mut site = seeded_site();
    let id: Vec<u8> = (100u8..116).collect();
    let response = site.login_with_id(&form("a@b.com", "wrong"), id.clone(), 5);
    assert_eq!(response.status, 401);
    // The identifier is still free: a correct login can take it.
    let response = site.login_with_id(&form("a@b.com", "secret"), id, 5);
    assert_eq!(response.status, 303);
}

#[test]
fn protected_without_cookie_is_unauthorized() {
    let site = seeded_site();
    let response = site.protected(&None, 0);
    assert_eq!(response.status, 401);
    assert_eq!(response.body, "Unauthorized");
}

#[test]
fn logout_twice_redirects_twice() {
    let mut site = seeded_site();
    let login = site.login(&form("a@b.com", "secret"), 10);
    let cookie = Some(issued(&login));
    let first = site.logout(&cookie, 11);
    let second = site.logout(&cookie, 12);
    assert_eq!(first.status, 303);
    assert_eq!(second.status, 303);
    assert_eq!(first.location, Some("/".to_string()));
    assert_eq!(second.location, Some("/".to_string()));
    assert!(matches!(first.cookie, CookieChange::Clear));
    assert!(matches!(second.cookie, CookieChange::Keep));
}

#[test]
fn logout_without_cookie_redirects() {
    let mut site = seeded_site();
    let response = site.logout(&None, 11);
    assert_eq!(response.status, 303);
    assert_eq!(response.location, Some("/".to_string()));
    assert!(matches!(response.cookie, CookieChange::Keep));
}

#[test]
fn other_paths_are_not_found() {
    let mut site = seeded_site();
    let response = site.handle(&Request::Asset("/index.html".to_string()), &None, 0);
    assert_eq!(response.status, 404);
    assert_eq!(response.body, "Not Found");
}

#[test]
fn session_ends_when_it_expires() {
    let mut site = seeded_site();
    let login = site.login(&form("a@b.com", "secret"), 1000);
    let cookie = Some(issued(&login));
    assert_eq!(site.protected(&cookie, 4599).status, 200);
    assert_eq!(site.protected(&cookie, 4600).status, 401);
    site.expire(4600);
    assert_eq!(site.protected(&cookie, 1000).status, 401);
}

#[test]
fn two_logins_get_two_cookies() {
    let mut site = seeded_site();
    let first = issued(&site.login(&form("a@b.com", "secret"), 1));
    let second = issued(&site.login(&form("a@b.com", "secret"), 1));
    assert_ne!(first, second);
    assert_eq!(first.len(), 96);
    assert_eq!(site.protected(&Some(first), 2).status, 200);
    assert_eq!(site.protected(&Some(second), 2).status, 200);
}
