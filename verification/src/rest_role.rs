use vstd::prelude::*;

use crate::cookies::spec_cookie_get;
use crate::seqs::lemma_first_index;
use crate::http_server::{
    existing_slot, get_cookie_session_id, lemma_session_ops_wf, session_id_view, set_cookie_session_id,
    answered, header_pairs, id_pred, lemma_cleanup_wf, spec_access, spec_cleanup, spec_invalidate, Connection, Handler, HandlerResult, Headers, SessionImpl,
};

verus! {

/// The name of the administrator's account.
pub const ADMIN_USERNAME: &'static str = "admin";

/// What a user may do, from nothing to everything.
#[derive(Debug, Clone, Copy, PartialEq, Eq, Structural)]
pub enum Role {
    Anonymous,
    User,
    Admin,
}

impl Role {
    /// The place of the role in the order `Anonymous < User < Admin`.
    pub open spec fn rank(self) -> nat {
        match self {
            Role::Anonymous => 0,
            Role::User => 1,
            Role::Admin => 2,
        }
    }

    /// Whether this role is `min` or above it.
    pub fn at_least(&self, min: Role) -> (r: bool)
        ensures
            r == (self.rank() >= min.rank()),
    {
        let a: u8 = match self {
            Role::Anonymous => 0,
            Role::User => 1,
            Role::Admin => 2,
        };
        let b: u8 = match min {
            Role::Anonymous => 0,
            Role::User => 1,
            Role::Admin => 2,
        };
        a >= b
    }
}

impl Default for Role {
    fn default() -> (r: Self)
        ensures
            r == Role::Anonymous,
    {
        Role::Anonymous
    }
}

/// Session data that records the role the session was logged in with.
pub trait RoleSessionData {
    /// The role recorded.
    spec fn role(&self) -> Option<Role>;

    fn get_role(&self) -> (r: Option<Role>)
        ensures
            r == self.role(),
    ;

    fn set_role(&mut self, role: Role)
        ensures
            final(self).role() == Some(role),
    ;
}

/// Whether a request is let through to a handler that needs `min_role`: by the role its
/// credentials give when they give one, else by the role of its session.
pub open spec fn role_allows(credentials_role: Option<Role>, session_role: Option<Role>, min_role: Role) -> bool {
    match credentials_role {
        Some(role) => role.rank() >= min_role.rank(),
        None => session_role matches Some(role) && role.rank() >= min_role.rank(),
    }
}

/// Whether a request is let through to a handler that needs `min_role`, given the role of
/// its credentials and that of its session.
pub fn access_allowed(credentials_role: Option<Role>, session_role: Option<Role>, min_role: Role) -> (r: bool)
    ensures
        r == role_allows(credentials_role, session_role, min_role),
        credentials_role matches Some(c) ==> r == (c.rank() >= min_role.rank()),
        credentials_role is None ==> r == (session_role is Some && session_role->0.rank() >= min_role.rank()),
{
    match credentials_role {
        Some(role) => role.at_least(min_role),
        None => match session_role {
            Some(role) => role.at_least(min_role),
            None => false,
        },
    }
}

/// A request is let through only with a role at or above the one the handler needs: the
/// role of its credentials when it has credentials, else the role of its session; a request
/// with neither is refused. What passes a handler passes every handler that needs less.
pub proof fn lemma_role_allows(credentials_role: Option<Role>, session_role: Option<Role>, min_role: Role, lower: Role)
    ensures
        credentials_role matches Some(c) ==> (role_allows(credentials_role, session_role, min_role)
            <==> c.rank() >= min_role.rank()),
        credentials_role is None ==> (role_allows(credentials_role, session_role, min_role)
            <==> session_role is Some && session_role->0.rank() >= min_role.rank()),
        credentials_role is None && session_role is None ==> !role_allows(
            credentials_role,
            session_role,
            min_role,
        ),
        role_allows(credentials_role, session_role, min_role) && lower.rank() <= min_role.rank()
            ==> role_allows(credentials_role, session_role, lower),
{
}

/// The header that asks a client for its credentials.
pub open spec fn auth_challenge() -> Seq<(Seq<char>, Seq<char>)> {
    seq![("WWW-Authenticate"@, "Basic realm=\"User Visible Realm\""@)]
}

/// What the guard does with a request: hands it to `handler` when it is `allowed`; else
/// answers `401` asking for credentials.
pub open spec fn role_outcome<C: Connection, H: Handler<C>>(
    handler: H,
    allowed: bool,
    before: C,
    after: C,
    r: HandlerResult,
) -> bool {
    if allowed {
        handler.handled(before, after, r)
    } else {
        answered(before, after, r, 401u16, auth_challenge())
    }
}

/// A guard in front of handlers that lets through only requests with at least `min_role`,
/// taken from the request's credentials (`auth`) or from its session; others are answered
/// `401`.
pub struct WithRoleMiddleware<A, S> {
    auth: A,
    session: Option<S>,
    min_role: Role,
}

impl<A, S> WithRoleMiddleware<A, S> {
    /// The least role let through.
    pub closed spec fn min_role(&self) -> Role {
        self.min_role
    }

    /// How the credentials of a request are checked.
    pub closed spec fn auth(&self) -> A {
        self.auth
    }

    /// The sessions consulted when a request has no credentials.
    pub closed spec fn session(&self) -> Option<S> {
        self.session
    }

    pub fn new(auth: A, session: Option<S>, min_role: Role) -> (r: Self)
        ensures
            r.auth() == auth,
            r.session() == session,
            r.min_role() == min_role,
    {
        WithRoleMiddleware { auth, session, min_role }
    }
}

impl<A, T: Fn() -> u64, D: RoleSessionData + Default, const N: usize> WithRoleMiddleware<A, SessionImpl<T, D, N>> {
    /// The role of the session whose id the request's cookie carries, if there is one.
    fn session_role<C: Headers>(&mut self, connection: &C) -> (r: Option<Role>)
        requires
            old(self).session() matches Some(s) ==> s.wf() && s.clock().requires(()),
        ensures
            final(self).min_role() == old(self).min_role(),
            final(self).auth() == old(self).auth(),
            old(self).session() is None ==> r is None && final(self).session() is None,
            old(self).session() matches Some(s) ==> exists|now: u64| {
                &&& s.clock().ensures((), now)
                &&& r == session_role_at(s.view(), s.values(), request_session_id(connection), now)
                &&& final(self).session() matches Some(f) && f.view() == spec_access(
                    s.view(),
                    request_session_id(connection),
                    now,
                ) && f.values() == s.values() && f.clock() == s.clock() && f.timeout() == s.timeout()
            },
    {
        let id = get_cookie_session_id(connection);
        assert(session_id_view(id) == request_session_id(connection));
        match &mut self.session {
            Some(session) => {
                let ghost s0 = *session;
                let res = session.with_existing(id);
                let ghost now = choose|now: u64|
                    {
                        &&& s0.clock().ensures((), now)
                        &&& after_borrow(session).view() == spec_access(s0.view(), session_id_view(id), now)
                        &&& match existing_slot(s0.view(), session_id_view(id), now) {
                            Some(i) => res matches Some(d) && *d == s0.values()[i]
                                && after_borrow(session).values() == s0.values().update(i, *final(d)),
                            None => res is None && after_borrow(session).values() == s0.values(),
                        }
                    };
                match res {
                    Some(data) => {
                        let role = data.get_role();
                        proof {
                            let i = existing_slot(s0.view(), session_id_view(id), now)->0;
                            lemma_cleanup_wf(s0.view(), now);
                            lemma_first_index(spec_cleanup(s0.view(), now), id_pred(id->0@));
                            assert(s0.values().update(i, s0.values()[i]) =~= s0.values());
                        }
                        assert(role == session_role_at(s0.view(), s0.values(), session_id_view(id), now));
                        role
                    },
                    None => None,
                }
            },
            None => None,
        }
    }

    /// Hands the request to `handler` when its credentials, or else its session, give a
    /// role of at least the minimum; answers `401`, asking for credentials, otherwise.
    pub fn handle<C, H>(&mut self, connection: &mut C, handler: &H) -> (r: HandlerResult)
        where
            C: Connection + Headers,
            A: Fn(&C) -> Option<Role>,
            H: Handler<C>,
        requires
            old(self).session() matches Some(s) ==> s.wf() && s.clock().requires(()),
            forall|c: &C| old(self).auth().requires((c,)),
        ensures
            exists|credentials_role: Option<Role>|
                #![trigger old(self).auth().ensures((old(connection),), credentials_role)]
                old(self).auth().ensures((old(connection),), credentials_role) && match old(self).session() {
                    Some(s) if credentials_role is None => exists|now: u64|
                        #![trigger s.clock().ensures((), now)]
                        s.clock().ensures((), now) && (final(self).session() matches Some(f) && f.view()
                            == spec_access(s.view(), request_session_id(old(connection)), now) && f.values()
                            == s.values() && f.clock() == s.clock() && f.timeout() == s.timeout()) && role_outcome(
                            *handler,
                            role_allows(
                                None,
                                session_role_at(s.view(), s.values(), request_session_id(old(connection)), now),
                                old(self).min_role(),
                            ),
                            *old(connection),
                            *final(connection),
                            r,
                        ),
                    _ => final(self).session() == old(self).session() && role_outcome(
                        *handler,
                        role_allows(credentials_role, None, old(self).min_role()),
                        *old(connection),
                        *final(connection),
                        r,
                    ),
                },
    {
        let conn: &C = &*connection;
        assert(old(self).auth().requires((conn,)));
        let credentials_role = (self.auth)(conn);
        let session_role = match credentials_role {
            Some(_) => None,
            None => self.session_role(conn),
        };
        self.handle_with_roles(connection, handler, credentials_role, session_role)
    }
}

impl<A, S> WithRoleMiddleware<A, S> {
    /// Hands the request to `handler` when the role of its credentials, or else that of its
    /// session, is at least the minimum; answers `401`, asking for credentials, otherwise.
    pub fn handle_with_roles<C: Connection, H: Handler<C>>(
        &self,
        connection: &mut C,
        handler: &H,
        credentials_role: Option<Role>,
        session_role: Option<Role>,
    ) -> (r: HandlerResult)
        ensures
            role_outcome(
                *handler,
                role_allows(credentials_role, session_role, self.min_role()),
                *old(connection),
                *final(connection),
                r,
            ),
    {
        if access_allowed(credentials_role, session_role, self.min_role) {
            handler.handle(connection)
        } else {
            let headers = [("WWW-Authenticate", "Basic realm=\"User Visible Realm\"")];
            assert(header_pairs(headers@) =~= auth_challenge());
            connection.into_response(401, None, &headers)
        }
    }
}

/// Logs the request in with the credentials `username` and `password`: when `auth` gives
/// them a role, the request's old session is ended, the session `"XXX"` is opened with that
/// role, and the answer `200` sets the session cookie; otherwise the answer is `401`.
pub fn login<C, T, D, F, const N: usize>(
    request: &mut C,
    username: &str,
    password: &str,
    session: &mut SessionImpl<T, D, N>,
    auth: F,
) -> (r: HandlerResult)
    where
        C: Connection + Headers,
        T: Fn() -> u64,
        D: RoleSessionData + Default,
        F: Fn(&str, &str) -> Option<Role>,
    requires
        old(session).wf(),
        old(session).clock().requires(()),
        auth.requires((username, password)),
    ensures
        exists|role: Option<Role>| {
            &&& auth.ensures((username, password), role)
            &&& r is Ok ==> final(request).response_status() == Some(
                if role is Some {
                    200u16
                } else {
                    401u16
                },
            )
            &&& role is None && old(request).responds() ==> r is Ok
        },
{
    match auth(username, password) {
        Some(role) => {
            session.invalidate(get_cookie_session_id(&*request));
            let session_id = "XXX";
            match session.with(session_id) {
                Ok(data) => data.set_role(role),
                Err(e) => {
                    return Err(crate::http_server::HandlerError(e.message().to_string()));
                },
            }
            let mut cookie = String::new();
            set_cookie_session_id(&*request, session_id, &mut cookie);
            let headers = [("Set-Cookie", cookie.as_str())];
            request.into_response(200, None, &headers)
        },
        None => {
            match request.into_status_response(401) {
                Ok(()) => {},
                Err(e) => {
                    return Err(e);
                },
            }
            request.write_all("Invalid username or password".as_bytes())
        },
    }
}

/// The session id the `SESSIONID` cookie of a request carries.
pub open spec fn request_session_id<H: Headers>(headers: &H) -> Option<Seq<char>> {
    match headers.header_value("Cookie"@) {
        Some(c) => spec_cookie_get(c, "SESSIONID"@),
        None => None,
    }
}

/// The role of the session `id` at time `now`, when it is in use and logged in with one.
pub open spec fn session_role_at<D: RoleSessionData>(
    slots: Seq<(Seq<char>, u64, u64)>,
    values: Seq<D>,
    id: Option<Seq<char>>,
    now: u64,
) -> Option<Role> {
    match existing_slot(slots, id, now) {
        Some(i) => values[i].role(),
        None => None,
    }
}

/// Whether, at time `now`, the session `id` is in use and logged in with a role.
pub open spec fn logged_in_at<D: RoleSessionData>(
    slots: Seq<(Seq<char>, u64, u64)>,
    values: Seq<D>,
    id: Option<Seq<char>>,
    now: u64,
) -> bool {
    match existing_slot(slots, id, now) {
        Some(i) => values[i].role() is Some,
        None => false,
    }
}

/// Logs the request in again, with the credentials `username` and `password`, when its
/// session is a logged-in one; does nothing otherwise.
pub fn relogin<C, T, D, F, const N: usize>(
    request: &mut C,
    username: &str,
    password: &str,
    session: &mut SessionImpl<T, D, N>,
    auth: F,
) -> (r: HandlerResult)
    where
        C: Connection + Headers,
        T: Fn() -> u64,
        D: RoleSessionData + Default,
        F: Fn(&str, &str) -> Option<Role>,
    requires
        old(session).wf(),
        old(session).clock().requires(()),
        auth.requires((username, password)),
    ensures
        exists|now: u64| {
            &&& old(session).clock().ensures((), now)
            &&& if logged_in_at(old(session).view(), old(session).values(), request_session_id(old(request)), now) {
                r is Ok ==> final(request).response_status() is Some
            } else {
                r is Ok && *final(request) == *old(request)
            }
        },
{
    let id = get_cookie_session_id(&*request);
    let logged_in = match session.with_existing(id) {
        Some(data) => data.get_role().is_some(),
        None => false,
    };
    let ghost now = choose|now: u64|
        old(session).clock().ensures((), now) && session.view() == spec_access(
            old(session).view(),
            session_id_view(id),
            now,
        ) && match existing_slot(old(session).view(), session_id_view(id), now) {
            Some(i) => logged_in == old(session).values()[i].role() is Some,
            None => !logged_in,
        };
    proof {
        lemma_session_ops_wf(old(session).view(), session_id_view(id), Seq::empty(), now, 0);
        assert(session.wf());
        assert(session_id_view(id) == request_session_id(old(request)));
    }
    assert(old(session).clock().ensures((), now));
    assert(logged_in == logged_in_at(old(session).view(), old(session).values(), request_session_id(old(request)), now));
    if logged_in {
        login(request, username, password, session, auth)
    } else {
        Ok(())
    }
}

/// Logs the request out: its session ends.
pub fn logout<C: Headers, T: Fn() -> u64, D: Default, const N: usize>(
    request: &C,
    session: &mut SessionImpl<T, D, N>,
) -> (r: HandlerResult)
    requires
        old(session).wf(),
        old(session).clock().requires(()),
    ensures
        r is Ok,
        final(session).wf(),
        final(session).values() == old(session).values(),
        final(session).clock() == old(session).clock(),
        final(session).timeout() == old(session).timeout(),
        exists|now: u64| {
            &&& old(session).clock().ensures((), now)
            &&& final(session).view() == spec_invalidate(old(session).view(), request_session_id(request), now)
        },
{
    let id = get_cookie_session_id(request);
    assert(session_id_view(id) == request_session_id(request));
    session.invalidate(id);
    Ok(())
}

} // verus!
