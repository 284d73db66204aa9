use embedded_svc::http::{Headers, Method};
use embedded_svc::http_server::{Connection, Handler, HandlerError, HandlerResult, Route, ServerHandler};
use embedded_svc::rest_captive::{captive_status_json, get_status, WithCaptivePortalMiddleware};
use embedded_svc::rest_role::{login, logout, relogin, Role, RoleSessionData, WithRoleMiddleware};
use embedded_svc::http_server::SessionImpl;

#[derive(Default)]
struct MockConnection {
    headers: Vec<(String, String)>,
    status: Option<u16>,
    response_headers: Vec<(String, String)>,
    body: Vec<u8>,
}

impl MockConnection {
    fn with_header(name: &str, value: &str) -> Self {
        MockConnection { headers: vec![(name.to_string(), value.to_string())], ..Default::default() }
    }
}

impl Connection for MockConnection {
    fn response_status(&self) -> Option<u16> {
        self.status
    }

    fn responds(&self) -> bool {
        true
    }

    fn body(&self) -> vstd::seq::Seq<u8> {
        unreachable!("a specification, never called at run time")
    }

    fn response_headers(&self) -> vstd::seq::Seq<(vstd::seq::Seq<char>, vstd::seq::Seq<char>)> {
        unreachable!("a specification, never called at run time")
    }

    fn into_status_response(&mut self, status: u16) -> HandlerResult {
        self.status = Some(status);
        Ok(())
    }

    fn into_response(&mut self, status: u16, _message: Option<&str>, headers: &[(&str, &str)]) -> HandlerResult {
        self.status = Some(status);
        self.response_headers = headers.iter().map(|(n, v)| (n.to_string(), v.to_string())).collect();
        Ok(())
    }

    fn write_all(&mut self, data: &[u8]) -> HandlerResult {
        self.body.extend_from_slice(data);
        Ok(())
    }
}

impl embedded_svc::http_server::Headers for MockConnection {
    fn header_value(&self, _name: vstd::seq::Seq<char>) -> Option<vstd::seq::Seq<char>> {
        unreachable!("a specification, never called at run time")
    }

    fn header(&self, name: &str) -> Option<&str> {
        self.headers
            .iter()
            .find(|(n, _)| n.eq_ignore_ascii_case(name))
            .map(|(_, v)| v.as_str())
    }
}

struct Ok200;

impl Handler<MockConnection> for Ok200 {
    fn handled(&self, _before: MockConnection, _after: MockConnection, _r: HandlerResult) -> bool {
        unreachable!("a specification, never called at run time")
    }

    fn handle(&self, connection: &mut MockConnection) -> HandlerResult {
        connection.into_status_response(200)
    }
}

struct Status(u16);

impl Handler<MockConnection> for Status {
    fn handled(&self, _before: MockConnection, _after: MockConnection, _r: HandlerResult) -> bool {
        unreachable!("a specification, never called at run time")
    }

    fn handle(&self, connection: &mut MockConnection) -> HandlerResult {
        connection.into_status_response(self.0)
    }
}

#[test]
fn server_routes_to_latest_registration() {
    let server = ServerHandler::new()
        .register_get::<MockConnection, _>("/a", Status(201))
        .register_post::<MockConnection, _>("/a", Status(202))
        .register_get::<MockConnection, _>("/a", Status(203));
    let mut get = MockConnection::default();
    server.handle("/a", Method::Get, &mut get).unwrap();
    assert_eq!(get.status, Some(203));
    let mut post = MockConnection::default();
    server.handle("/a", Method::Post, &mut post).unwrap();
    assert_eq!(post.status, Some(202));
    assert_eq!(server.route::<MockConnection>("/a", Method::Get), Route::Handler(0));
    assert_eq!(server.route::<MockConnection>("/a", Method::Post), Route::Handler(1));
}

#[test]
fn server_answers_405_and_404() {
    let server = ServerHandler::new().register_get::<MockConnection, _>("/a", Status(200));
    let mut wrong_method = MockConnection::default();
    server.handle("/a", Method::Put, &mut wrong_method).unwrap();
    assert_eq!(wrong_method.status, Some(405));
    let mut unknown = MockConnection::default();
    server.handle("/b", Method::Get, &mut unknown).unwrap();
    assert_eq!(unknown.status, Some(404));
    assert_eq!(server.route::<MockConnection>("/b", Method::Get), Route::Status(404));
}

#[derive(Default)]
struct Data {
    role: Option<Role>,
}

impl RoleSessionData for Data {
    fn role(&self) -> Option<Role> {
        self.role
    }

    fn get_role(&self) -> Option<Role> {
        self.role
    }

    fn set_role(&mut self, role: Role) {
        self.role = Some(role);
    }
}

#[test]
fn role_middleware_lets_high_credentials_through() {
    let mut middleware =
        WithRoleMiddleware::new(|c: &MockConnection| if c.headers.is_empty() { None } else { Some(Role::Admin) }, None::<SessionImpl<fn() -> u64, Data, 1>>, Role::User);
    let mut connection = MockConnection::with_header("Authorization", "x");
    middleware.handle(&mut connection, &Ok200).unwrap();
    assert_eq!(connection.status, Some(200));
}

#[test]
fn role_middleware_answers_401_without_role() {
    let mut middleware = WithRoleMiddleware::new(|_: &MockConnection| None, None::<SessionImpl<fn() -> u64, Data, 1>>, Role::User);
    let mut connection = MockConnection::default();
    middleware.handle(&mut connection, &Ok200).unwrap();
    assert_eq!(connection.status, Some(401));
    assert_eq!(connection.response_headers[0].0, "WWW-Authenticate");
}

#[test]
fn role_middleware_uses_session_role() {
    let mut sessions = SessionImpl::<fn() -> u64, Data, 2>::new(|| 1, 100);
    sessions.with("s1").unwrap().set_role(Role::Admin);
    let mut middleware = WithRoleMiddleware::new(|_: &MockConnection| None, Some(sessions), Role::Admin);
    let mut connection = MockConnection::with_header("Cookie", "SESSIONID=s1");
    middleware.handle(&mut connection, &Ok200).unwrap();
    assert_eq!(connection.status, Some(200));
    let mut stranger = MockConnection::with_header("Cookie", "SESSIONID=other");
    middleware.handle(&mut stranger, &Ok200).unwrap();
    assert_eq!(stranger.status, Some(401));
}

#[test]
fn login_sets_session_cookie() {
    let mut sessions = SessionImpl::<fn() -> u64, Data, 2>::new(|| 1, 100);
    let mut request = MockConnection::default();
    login(&mut request, "admin", "secret", &mut sessions, |u: &str, p: &str| {
        if u == "admin" && p == "secret" { Some(Role::Admin) } else { None }
    })
    .unwrap();
    assert_eq!(request.status, Some(200));
    assert_eq!(request.response_headers, vec![("Set-Cookie".to_string(), "SESSIONID=XXX".to_string())]);
    assert_eq!(sessions.with_existing(Some("XXX")).and_then(|d| d.get_role()), Some(Role::Admin));
}

#[test]
fn login_refuses_bad_credentials() {
    let mut sessions = SessionImpl::<fn() -> u64, Data, 2>::new(|| 1, 100);
    let mut request = MockConnection::default();
    login(&mut request, "admin", "wrong", &mut sessions, |_: &str, _: &str| None).unwrap();
    assert_eq!(request.status, Some(401));
    assert_eq!(request.body, b"Invalid username or password".to_vec());
}

#[test]
fn captive_portal_redirects_foreign_hosts() {
    let middleware = WithCaptivePortalMiddleware::new(true, "http://192.168.71.1/portal", |host: &str| host == "192.168.71.1");
    let mut foreign = MockConnection::with_header("Host", "example.com");
    middleware.handle(&mut foreign, &Ok200).unwrap();
    assert_eq!(foreign.status, Some(307));
    assert_eq!(foreign.response_headers, vec![("Location".to_string(), "http://192.168.71.1/portal".to_string())]);
    let mut local = MockConnection::with_header("Host", "192.168.71.1");
    middleware.handle(&mut local, &Ok200).unwrap();
    assert_eq!(local.status, Some(200));
    let mut hostless = MockConnection::default();
    middleware.handle(&mut hostless, &Ok200).unwrap();
    assert_eq!(hostless.status, Some(200));
}

#[test]
fn captive_portal_off_lets_everything_through() {
    let middleware = WithCaptivePortalMiddleware::new(false, "/portal", |_: &str| false);
    let mut foreign = MockConnection::with_header("Host", "example.com");
    middleware.handle(&mut foreign, &Ok200).unwrap();
    assert_eq!(foreign.status, Some(200));
}

#[test]
fn captive_status_document() {
    assert_eq!(
        captive_status_json(true, "http://a/"),
        "\n        {\n            \"captive\": true,\n            \"user-portal-url\": \"http://a/\"\n        }"
    );
    let mut request = MockConnection::default();
    get_status::<_, 256>(&mut request, "/p", false).unwrap();
    assert_eq!(request.status, Some(200));
    assert!(String::from_utf8(request.body).unwrap().contains("\"captive\": false"));
}

#[test]
fn handler_error_carries_text() {
    let e = HandlerError("boom".to_string());
    assert_eq!(e.0, "boom");
    let _ = Headers::<'static, 1>::new();
}

#[test]
fn relogin_only_for_logged_in_sessions() {
    let mut sessions = SessionImpl::<fn() -> u64, Data, 2>::new(|| 1, 100);
    sessions.with("s1").unwrap().set_role(Role::User);
    let auth = |_: &str, _: &str| Some(Role::Admin);
    let mut stranger = MockConnection::default();
    relogin(&mut stranger, "u", "p", &mut sessions, auth).unwrap();
    assert_eq!(stranger.status, None);
    let mut known = MockConnection::with_header("Cookie", "SESSIONID=s1");
    relogin(&mut known, "u", "p", &mut sessions, auth).unwrap();
    assert_eq!(known.status, Some(200));
    assert!(!sessions.is_existing(Some("s1")));
    assert!(sessions.is_existing(Some("XXX")));
    let leaving = MockConnection::with_header("Cookie", "SESSIONID=XXX");
    logout(&leaving, &mut sessions).unwrap();
    assert!(!sessions.is_existing(Some("XXX")));
}
