use std::cell::Cell;

use embedded_svc::http::Headers;
use embedded_svc::http_server::{get_cookie_session_id, set_cookie_session_id, SessionError, SessionImpl};
use embedded_svc::rest_role::{access_allowed, Role, RoleSessionData, WithRoleMiddleware, ADMIN_USERNAME};

#[derive(Default)]
struct Data {
    role: Option<Role>,
    visits: u32,
}

impl RoleSessionData for Data {
    fn role(&self) -> Option<Role> {
        self.role
    }

    fn get_role(&self) -> Option<Role> {
        self.role
    }

    fn set_role(&mut self, role: Role) {
        self.role = Some(role);
    }
}

#[test]
fn session_with_then_existing() {
    let mut sessions = SessionImpl::<_, Data, 2>::new(|| 100, 10);
    assert!(!sessions.is_existing(Some("abc")));
    sessions.with("abc").unwrap().visits += 1;
    assert!(sessions.is_existing(Some("abc")));
    assert_eq!(sessions.with_existing(Some("abc")).map(|d| d.visits), Some(1));
    assert!(sessions.with_existing(None).is_none());
}

#[test]
fn session_store_refuses_when_full() {
    let mut sessions = SessionImpl::<_, Data, 1>::new(|| 5, 10);
    assert!(sessions.with("one").is_ok());
    assert!(matches!(sessions.with("two"), Err(SessionError::MaxSessionsReachedError)));
    assert_eq!(SessionError::MaxSessionsReachedError.message(), "Max number of sessions reached");
}

#[test]
fn session_invalidate_then_gone() {
    let mut sessions = SessionImpl::<_, Data, 2>::new(|| 7, 10);
    sessions.with("abc").unwrap();
    assert!(sessions.invalidate(Some("abc")));
    assert!(!sessions.is_existing(Some("abc")));
    assert!(!sessions.invalidate(Some("abc")));
}

#[test]
fn session_expires_after_timeout() {
    let now = Cell::new(0u64);
    let mut sessions = SessionImpl::<_, Data, 2>::new(|| now.get(), 10);
    sessions.with("abc").unwrap();
    now.set(5);
    assert!(sessions.is_existing(Some("abc")));
    now.set(16);
    assert!(!sessions.is_existing(Some("abc")));
}

#[test]
fn session_cookie_roundtrip() {
    let mut headers = Headers::<'static, 4>::new();
    headers.set("Cookie", "theme=dark");
    let mut cookie = String::new();
    set_cookie_session_id(&headers, "s1", &mut cookie);
    assert_eq!(cookie, "theme=dark;SESSIONID=s1");
    let mut next = Headers::<'_, 4>::new();
    next.set("Cookie", &cookie);
    assert_eq!(get_cookie_session_id(&next), Some("s1"));
}

#[test]
fn roles_are_ordered() {
    assert!(Role::Admin.at_least(Role::User));
    assert!(Role::User.at_least(Role::User));
    assert!(!Role::Anonymous.at_least(Role::User));
    assert_eq!(Role::default(), Role::Anonymous);
    assert_eq!(ADMIN_USERNAME, "admin");
}

#[test]
fn credentials_role_decides_before_session() {
    assert!(access_allowed(Some(Role::Admin), None, Role::Admin));
    assert!(!access_allowed(Some(Role::User), Some(Role::Admin), Role::Admin));
    assert!(access_allowed(None, Some(Role::Admin), Role::User));
    assert!(!access_allowed(None, None, Role::Anonymous));
}

