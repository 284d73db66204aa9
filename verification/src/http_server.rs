use vstd::prelude::*;

use crate::cookies::{
    concat_pieces, cookie_pairs, cookie_pairs_from, cookie_text, key_pred, lemma_cookie_set_then_get,
    lemma_cookie_text_roundtrip, plain_cookie_text, scan_size, spec_cookie_get, spec_cookie_serialize,
    spec_cookie_set, CookieIterator, Cookies,
};
use crate::http::{pairs_view, Method};
use crate::seqs::{first_index, lemma_first_index, lemma_first_index_at};
use crate::strs::str_eq;

verus! {

/// Why a request handler failed.
#[derive(Debug)]
pub struct HandlerError(pub String);

/// What a request handler returns.
pub type HandlerResult = Result<(), HandlerError>;

/// The connection a request arrived on, as far as the handlers need it.
pub trait Connection {
    /// The status of the response sent on the connection, once one was sent.
    spec fn response_status(&self) -> Option<u16>;

    /// Whether the connection takes every response and body written to it without failure.
    spec fn responds(&self) -> bool;

    /// The bytes written into the body of the response so far.
    spec fn body(&self) -> Seq<u8>;

    /// The headers of the response sent on the connection, as name and value.
    spec fn response_headers(&self) -> Seq<(Seq<char>, Seq<char>)>;

    /// Answers the request with an empty response carrying `status`.
    fn into_status_response(&mut self, status: u16) -> (r: HandlerResult)
        ensures
            r is Ok ==> final(self).response_status() == Some(status),
            r is Ok ==> final(self).responds() == old(self).responds(),
            r is Ok ==> final(self).body() == old(self).body(),
            r is Ok ==> final(self).response_headers() == Seq::<(Seq<char>, Seq<char>)>::empty(),
            old(self).responds() ==> r is Ok,
    ;

    /// Answers the request with `status`, the reason `message` (a default one when `None`)
    /// and the headers `headers`.
    fn into_response(&mut self, status: u16, message: Option<&str>, headers: &[(&str, &str)]) -> (r:
        HandlerResult)
        ensures
            r is Ok ==> final(self).response_status() == Some(status),
            r is Ok ==> final(self).responds() == old(self).responds(),
            r is Ok ==> final(self).body() == old(self).body(),
            r is Ok ==> final(self).response_headers() == header_pairs(headers@),
            old(self).responds() ==> r is Ok,
    ;

    /// Writes `data` into the body of the response.
    fn write_all(&mut self, data: &[u8]) -> (r: HandlerResult)
        ensures
            final(self).response_status() == old(self).response_status(),
            final(self).response_headers() == old(self).response_headers(),
            r is Ok ==> final(self).responds() == old(self).responds(),
            r is Ok ==> final(self).body() == old(self).body() + data@,
            old(self).responds() ==> r is Ok,
    ;
}

/// The headers given as pairs of strings, as name and value.
pub open spec fn header_pairs(headers: Seq<(&str, &str)>) -> Seq<(Seq<char>, Seq<char>)> {
    headers.map_values(|h: (&str, &str)| (h.0@, h.1@))
}

/// Whether the call that turned the connection `before` into `after` with the result `r`
/// answered the request with `status`, the headers `headers` and no body, succeeding
/// whenever the connection responds.
pub open spec fn answered<C: Connection>(
    before: C,
    after: C,
    r: HandlerResult,
    status: u16,
    headers: Seq<(Seq<char>, Seq<char>)>,
) -> bool {
    &&& r is Ok ==> after.response_status() == Some(status) && after.response_headers() == headers
        && after.body() == before.body()
    &&& before.responds() ==> r is Ok
}

/// A request handler.
pub trait Handler<C> {
    /// Whether handling the request on the connection `before` may leave it as `after` and
    /// give `r`.
    spec fn handled(&self, before: C, after: C, r: HandlerResult) -> bool;

    /// Handles the request that arrived on `connection`.
    fn handle(&self, connection: &mut C) -> (r: HandlerResult)
        ensures
            self.handled(*old(connection), *final(connection), r),
    ;
}

/// Where a request goes: to the handler at a depth of the registration chain (0 is the most
/// recently registered one), or nowhere, answered with a status.
#[derive(Debug, Clone, Copy, PartialEq, Eq, Structural)]
pub enum Route {
    Handler(usize),
    Status(u16),
}

/// The route of a request for `path` with `method` through the registrations `routes`
/// (most recent first); `path_registered` tells whether a registration seen before had the path.
pub open spec fn spec_route(
    routes: Seq<(Seq<char>, Method)>,
    path_registered: bool,
    path: Seq<char>,
    method: Method,
) -> Route
    decreases routes.len(),
{
    if routes.len() == 0 {
        Route::Status(
            if path_registered {
                405
            } else {
                404
            },
        )
    } else if routes[0].0 == path && routes[0].1 == method {
        Route::Handler(0)
    } else {
        match spec_route(routes.drop_first(), path_registered || routes[0].0 == path, path, method) {
            Route::Handler(i) => Route::Handler((i + 1) as usize),
            s => s,
        }
    }
}

/// A request is routed to a handler at a depth the chain has.
pub proof fn lemma_route_bound(
    routes: Seq<(Seq<char>, Method)>,
    path_registered: bool,
    path: Seq<char>,
    method: Method,
)
    requires
        routes.len() < usize::MAX,
    ensures
        spec_route(routes, path_registered, path, method) matches Route::Handler(i) ==> i < routes.len(),
    decreases routes.len(),
{
    if routes.len() > 0 {
        lemma_route_bound(routes.drop_first(), path_registered || routes[0].0 == path, path, method);
    }
}

/// A chain of handler registrations.
pub trait HandlerRegistration<C: Connection> {
    /// The `(path, method)` of every registration, most recent first.
    spec fn routes(&self) -> Seq<(Seq<char>, Method)>;

    /// Where a request for `path` with `method` goes.
    fn route(&self, path_registered: bool, path: &str, method: Method) -> (r: Route)
        requires
            self.routes().len() < usize::MAX,
        ensures
            r == spec_route(self.routes(), path_registered, path@, method),
    ;

    /// Hands the request to the first registration for `path` and `method`; when there is
    /// none, answers 405 if some registration has the path, 404 otherwise.
    fn handle(&self, path_registered: bool, path: &str, method: Method, connection: &mut C) -> (r:
        HandlerResult)
        requires
            self.routes().len() < usize::MAX,
        ensures
            spec_route(self.routes(), path_registered, path@, method) matches Route::Status(status)
                ==> answered(*old(connection), *final(connection), r, status, Seq::empty()),
            spec_route(self.routes(), path_registered, path@, method) matches Route::Handler(i)
                ==> self.handled_at(i as nat, *old(connection), *final(connection), r),
    ;

    /// Whether the handler of the registration at `depth` (0: the most recent one) may
    /// turn the connection `before` into `after` with the result `r`.
    spec fn handled_at(&self, depth: nat, before: C, after: C, r: HandlerResult) -> bool;
}

impl<C: Connection> HandlerRegistration<C> for () {
    open spec fn routes(&self) -> Seq<(Seq<char>, Method)> {
        Seq::empty()
    }

    open spec fn handled_at(&self, depth: nat, before: C, after: C, r: HandlerResult) -> bool {
        false
    }

    fn route(&self, path_registered: bool, path: &str, method: Method) -> (r: Route) {
        Route::Status(
            if path_registered {
                405
            } else {
                404
            },
        )
    }

    fn handle(&self, path_registered: bool, path: &str, method: Method, connection: &mut C) -> (r: HandlerResult) {
        connection.into_status_response(
            if path_registered {
                405
            } else {
                404
            },
        )
    }
}

/// A registration of `handler` for `method` on `path`, chained before `next`.
pub struct SimpleHandlerRegistration<H, N> {
    path: &'static str,
    method: Method,
    handler: H,
    next: N,
}

impl<H, N> SimpleHandlerRegistration<H, N> {
    /// The path of the registration.
    pub closed spec fn reg_path(&self) -> Seq<char> {
        self.path@
    }

    /// The method of the registration.
    pub closed spec fn reg_method(&self) -> Method {
        self.method
    }

    /// The handler of the registration.
    pub closed spec fn reg_handler(&self) -> H {
        self.handler
    }

    /// The registrations chained after this one.
    pub closed spec fn reg_next(&self) -> N {
        self.next
    }

    fn new(path: &'static str, method: Method, handler: H, next: N) -> (r: Self)
        ensures
            r.reg_path() == path@,
            r.reg_method() == method,
            r.reg_handler() == handler,
            r.reg_next() == next,
    {
        Self { path, method, handler, next }
    }
}

impl<H, C, N> HandlerRegistration<C> for SimpleHandlerRegistration<H, N> where
    H: Handler<C>,
    N: HandlerRegistration<C>,
    C: Connection,
 {
    open spec fn routes(&self) -> Seq<(Seq<char>, Method)> {
        seq![(self.reg_path(), self.reg_method())] + self.reg_next().routes()
    }

    open spec fn handled_at(&self, depth: nat, before: C, after: C, r: HandlerResult) -> bool {
        if depth == 0 {
            self.reg_handler().handled(before, after, r)
        } else {
            self.reg_next().handled_at((depth - 1) as nat, before, after, r)
        }
    }

    fn route(&self, path_registered: bool, path: &str, method: Method) -> (r: Route) {
        let same_path = str_eq(self.path, path);
        if same_path && self.method == method {
            return Route::Handler(0);
        }
        assert(self.routes().drop_first() =~= self.next.routes());
        proof {
            lemma_route_bound(self.next.routes(), path_registered || same_path, path@, method);
        }
        match self.next.route(path_registered || same_path, path, method) {
            Route::Handler(i) => Route::Handler(i + 1),
            s => s,
        }
    }

    fn handle(&self, path_registered: bool, path: &str, method: Method, connection: &mut C) -> (r: HandlerResult) {
        assert(self.routes().drop_first() =~= self.next.routes());
        let path_registered2 = if str_eq(self.path, path) {
            if self.method == method {
                return self.handler.handle(connection);
            }
            true
        } else {
            false
        };
        proof {
            lemma_route_bound(self.next.routes(), path_registered || path_registered2, path@, method);
        }
        self.next.handle(path_registered || path_registered2, path, method, connection)
    }
}

/// A request dispatcher over a chain of handler registrations.
pub struct ServerHandler<H>(H);

impl<H> ServerHandler<H> {
    /// The chain of registrations.
    pub closed spec fn chain(&self) -> H {
        self.0
    }
}

impl ServerHandler<()> {
    /// A dispatcher with no registrations.
    pub fn new() -> (r: Self)
        ensures
            r.chain() == (),
    {
        ServerHandler(())
    }
}

impl<H> ServerHandler<H> {
    /// Registers `handler` for `GET` requests on `path`.
    pub fn register_get<C, H2>(self, path: &'static str, handler: H2) -> (r: ServerHandler<
        SimpleHandlerRegistration<H2, H>,
    >) where C: Connection, H2: Handler<C>
        ensures
            r.chain().reg_path() == path@,
            r.chain().reg_method() == Method::Get,
            r.chain().reg_handler() == handler,
            r.chain().reg_next() == self.chain(),
    {
        self.register::<C, H2>(path, Method::Get, handler)
    }

    /// Registers `handler` for `POST` requests on `path`.
    pub fn register_post<C, H2>(self, path: &'static str, handler: H2) -> (r: ServerHandler<
        SimpleHandlerRegistration<H2, H>,
    >) where C: Connection, H2: Handler<C>
        ensures
            r.chain().reg_path() == path@,
            r.chain().reg_method() == Method::Post,
            r.chain().reg_handler() == handler,
            r.chain().reg_next() == self.chain(),
    {
        self.register::<C, H2>(path, Method::Post, handler)
    }

    /// Registers `handler` for `PUT` requests on `path`.
    pub fn register_put<C, H2>(self, path: &'static str, handler: H2) -> (r: ServerHandler<
        SimpleHandlerRegistration<H2, H>,
    >) where C: Connection, H2: Handler<C>
        ensures
            r.chain().reg_path() == path@,
            r.chain().reg_method() == Method::Put,
            r.chain().reg_handler() == handler,
            r.chain().reg_next() == self.chain(),
    {
        self.register::<C, H2>(path, Method::Put, handler)
    }

    /// Registers `handler` for `DELETE` requests on `path`.
    pub fn register_delete<C, H2>(self, path: &'static str, handler: H2) -> (r: ServerHandler<
        SimpleHandlerRegistration<H2, H>,
    >) where C: Connection, H2: Handler<C>
        ensures
            r.chain().reg_path() == path@,
            r.chain().reg_method() == Method::Delete,
            r.chain().reg_handler() == handler,
            r.chain().reg_next() == self.chain(),
    {
        self.register::<C, H2>(path, Method::Delete, handler)
    }

    /// Registers `handler` for requests with `method` on `path`.
    pub fn register<C, H2>(self, path: &'static str, method: Method, handler: H2) -> (r: ServerHandler<
        SimpleHandlerRegistration<H2, H>,
    >) where C: Connection, H2: Handler<C>
        ensures
            r.chain().reg_path() == path@,
            r.chain().reg_method() == method,
            r.chain().reg_handler() == handler,
            r.chain().reg_next() == self.chain(),
    {
        ServerHandler(SimpleHandlerRegistration::new(path, method, handler, self.0))
    }

    /// Where a request for `path` with `method` goes.
    pub fn route<C>(&self, path: &str, method: Method) -> (r: Route) where
        C: Connection,
        H: HandlerRegistration<C>,
        requires
            self.chain().routes().len() < usize::MAX,
        ensures
            r == spec_route(self.chain().routes(), false, path@, method),
    {
        self.0.route(false, path, method)
    }

    /// Hands the request to the most recent registration for `path` and `method`; when there
    /// is none, answers 405 if some registration has the path, 404 otherwise.
    pub fn handle<C>(&self, path: &str, method: Method, connection: &mut C) -> (r: HandlerResult) where
        C: Connection,
        H: HandlerRegistration<C>,
        requires
            self.chain().routes().len() < usize::MAX,
        ensures
            spec_route(self.chain().routes(), false, path@, method) matches Route::Status(status)
                ==> answered(*old(connection), *final(connection), r, status, Seq::empty()),
            spec_route(self.chain().routes(), false, path@, method) matches Route::Handler(i)
                ==> self.chain().handled_at(i as nat, *old(connection), *final(connection), r),
    {
        self.0.handle(false, path, method, connection)
    }
}

/// Requests go to the most recent registration for their path and method; without one they are
/// answered 405 when some registration has the path and 404 otherwise.
pub proof fn lemma_route(routes: Seq<(Seq<char>, Method)>, path_registered: bool, path: Seq<char>, method: Method)
    requires
        routes.len() < usize::MAX,
    ensures
        ({
            let target = |e: (Seq<char>, Method)| e.0 == path && e.1 == method;
            let known = path_registered || exists|i: int| 0 <= i < routes.len() && (#[trigger] routes[i]).0 == path;
            match first_index(routes, target) {
                Some(i) => spec_route(routes, path_registered, path, method) == Route::Handler(i as usize),
                None => spec_route(routes, path_registered, path, method) == Route::Status(
                    if known {
                        405
                    } else {
                        404
                    },
                ),
            }
        }),
    decreases routes.len(),
{
    let target = |e: (Seq<char>, Method)| e.0 == path && e.1 == method;
    lemma_first_index(routes, target);
    if routes.len() > 0 {
        let rest = routes.drop_first();
        let reg = path_registered || routes[0].0 == path;
        lemma_route(rest, reg, path, method);
        lemma_first_index(rest, target);
        if !target(routes[0]) {
            match first_index(rest, target) {
                Some(i) => {
                    assert forall|j: int| 0 <= j < i + 1 implies !target(#[trigger] routes[j]) by {
                        if j > 0 {
                            assert(routes[j] == rest[j - 1]);
                        }
                    }
                    lemma_first_index_at(routes, target, i + 1);
                },
                None => {
                    assert forall|j: int| 0 <= j < routes.len() implies !target(#[trigger] routes[j]) by {
                        if j > 0 {
                            assert(routes[j] == rest[j - 1]);
                        }
                    }
                    lemma_first_index_at(routes, target, routes.len() as int);
                    let known = path_registered || exists|i: int| 0 <= i < routes.len() && (#[trigger] routes[i]).0 == path;
                    let known2 = reg || exists|i: int| 0 <= i < rest.len() && (#[trigger] rest[i]).0 == path;
                    if known2 {
                        if !reg {
                            let i = choose|i: int| 0 <= i < rest.len() && (#[trigger] rest[i]).0 == path;
                            assert(routes[i + 1] == rest[i]);
                        }
                    }
                    if known {
                        if !path_registered {
                            let i = choose|i: int| 0 <= i < routes.len() && (#[trigger] routes[i]).0 == path;
                            if i > 0 {
                                assert(routes[i] == rest[i - 1]);
                            }
                        }
                    }
                },
            }
        } else {
            lemma_first_index_at(routes, target, 0);
        }
    }
}

/// Why a session could not be opened.
#[derive(Debug, Clone, Copy, PartialEq, Eq, Structural)]
pub enum SessionError {
    MaxSessionsReachedError,
}

impl SessionError {
    /// A description of the error.
    pub fn message(&self) -> (r: &'static str)
        ensures
            r@ == "Max number of sessions reached"@,
    {
        match self {
            SessionError::MaxSessionsReachedError => "Max number of sessions reached",
        }
    }
}

/// A session slot seen as (id, last access time, timeout); an empty id marks a free slot.
pub type SessionSlot = (Seq<char>, u64, u64);

/// A session slot and the data of its session.
pub struct SessionData<S> {
    id: String,
    last_accessed: u64,
    timeout: u64,
    data: S,
}

impl<S> SessionData<S> {
    /// The slot as (id, last access time, timeout).
    pub closed spec fn slot(&self) -> SessionSlot {
        (self.id@, self.last_accessed, self.timeout)
    }

    /// The data of the session.
    pub closed spec fn value(&self) -> S {
        self.data
    }
}

/// The slot after expiry at time `now`: a session not accessed within its timeout is freed.
pub open spec fn expired(e: SessionSlot, now: u64) -> SessionSlot {
    if e.1 + e.2 < now {
        (Seq::<char>::empty(), e.1, e.2)
    } else {
        e
    }
}

/// The slots after expiry at time `now`.
pub open spec fn spec_cleanup(s: Seq<SessionSlot>, now: u64) -> Seq<SessionSlot> {
    s.map_values(|e: SessionSlot| expired(e, now))
}

/// A slot whose id is exactly `id`.
pub open spec fn id_pred(id: Seq<char>) -> spec_fn(SessionSlot) -> bool {
    |e: SessionSlot| e.0 == id
}

/// Well-formed slots: no two sessions in use share an id.
pub open spec fn sessions_wf(s: Seq<SessionSlot>) -> bool {
    forall|i: int, j: int|
        0 <= i < s.len() && 0 <= j < s.len() && i != j && (#[trigger] s[i]).0.len() > 0 ==> s[i].0
            != (#[trigger] s[j]).0
}

/// The id a request carries, as characters.
pub open spec fn session_id_view(session_id: Option<&str>) -> Option<Seq<char>> {
    match session_id {
        Some(s) => Some(s@),
        None => None,
    }
}

/// The slot `is_existing`, `with_existing` and `invalidate` act on at time `now`: the first
/// one, after expiry, whose id is `session_id`.
pub open spec fn existing_slot(s: Seq<SessionSlot>, session_id: Option<Seq<char>>, now: u64) -> Option<int> {
    match session_id {
        Some(id) => first_index(spec_cleanup(s, now), id_pred(id)),
        None => None,
    }
}

/// The slots after `is_existing` or `with_existing` at time `now`.
pub open spec fn spec_access(s: Seq<SessionSlot>, session_id: Option<Seq<char>>, now: u64) -> Seq<SessionSlot> {
    let c = spec_cleanup(s, now);
    match existing_slot(s, session_id, now) {
        Some(i) => c.update(i, (c[i].0, now, c[i].2)),
        None => c,
    }
}

/// The slots after `invalidate` at time `now`.
pub open spec fn spec_invalidate(s: Seq<SessionSlot>, session_id: Option<Seq<char>>, now: u64) -> Seq<SessionSlot> {
    let c = spec_cleanup(s, now);
    match existing_slot(s, session_id, now) {
        Some(i) => c.update(i, (Seq::<char>::empty(), c[i].1, c[i].2)),
        None => c,
    }
}

/// The slot `with` acts on at time `now`, and whether it opens a session there: the first one,
/// after expiry, whose id is `id`, else the first free one; none when no slot is free.
pub open spec fn with_slot(s: Seq<SessionSlot>, id: Seq<char>, now: u64) -> Option<(int, bool)> {
    let c = spec_cleanup(s, now);
    match first_index(c, id_pred(id)) {
        Some(i) => Some((i, false)),
        None => match first_index(c, id_pred(Seq::<char>::empty())) {
            Some(j) => Some((j, true)),
            None => None,
        },
    }
}

/// The slots after `with` at time `now`, new sessions getting `timeout`.
pub open spec fn spec_with(s: Seq<SessionSlot>, id: Seq<char>, now: u64, timeout: u64) -> Seq<SessionSlot> {
    let c = spec_cleanup(s, now);
    match with_slot(s, id, now) {
        Some((i, false)) => c.update(i, (c[i].0, now, c[i].2)),
        Some((j, true)) => c.update(j, (id, now, timeout)),
        None => c,
    }
}

/// A store of at most `N` sessions, each holding data `S`; time is read from `current_time`.
pub struct SessionImpl<T, S, const N: usize> {
    current_time: T,
    data: Vec<SessionData<S>>,
    default_session_timeout: u64,
}

impl<T: Fn() -> u64, S: Default, const N: usize> SessionImpl<T, S, N> {
    /// The session slots.
    pub closed spec fn view(&self) -> Seq<SessionSlot> {
        self.data@.map_values(|d: SessionData<S>| d.slot())
    }

    /// The data of every slot.
    pub closed spec fn values(&self) -> Seq<S> {
        self.data@.map_values(|d: SessionData<S>| d.value())
    }

    /// The timeout given to new sessions.
    pub closed spec fn timeout(&self) -> u64 {
        self.default_session_timeout
    }

    /// The time source.
    pub closed spec fn clock(&self) -> T {
        self.current_time
    }

    /// `N` slots, with no two sessions in use sharing an id.
    pub open spec fn wf(&self) -> bool {
        &&& self.view().len() == N
        &&& self.values().len() == N
        &&& sessions_wf(self.view())
    }

    /// A store of `N` free slots whose new sessions time out after `default_session_timeout`.
    pub fn new(current_time: T, default_session_timeout: u64) -> (r: Self)
        ensures
            r.wf(),
            r.timeout() == default_session_timeout,
            r.clock() == current_time,
            forall|i: int| 0 <= i < N ==> (#[trigger] r.view()[i]).0.len() == 0,
    {
        let mut data: Vec<SessionData<S>> = Vec::new();
        let mut i: usize = 0;
        while i < N
            invariant
                i <= N,
                data@.len() == i,
                forall|j: int| 0 <= j < i ==> (#[trigger] data@[j]).id@.len() == 0,
            decreases N - i,
        {
            data.push(SessionData { id: String::new(), last_accessed: 0, timeout: 0, data: S::default() });
            i += 1;
        }
        SessionImpl { current_time, data, default_session_timeout }
    }

    fn cleanup(&mut self, current_time: u64)
        requires
            old(self).wf(),
        ensures
            final(self).wf(),
            final(self).view() == spec_cleanup(old(self).view(), current_time),
            final(self).values() == old(self).values(),
            final(self).timeout() == old(self).timeout(),
            final(self).clock() == old(self).clock(),
    {
        let n = self.data.len();
        let mut i: usize = 0;
        while i < n
            invariant
                n == self.data@.len(),
                n == N,
                i <= n,
                self.default_session_timeout == old(self).default_session_timeout,
                self.current_time == old(self).current_time,
                self.values() == old(self).values(),
                forall|j: int| 0 <= j < i ==> #[trigger] self.view()[j] == expired(old(self).view()[j], current_time),
                forall|j: int| i <= j < n ==> #[trigger] self.view()[j] == old(self).view()[j],
            decreases n - i,
        {
            let ghost before = self.view();
            let ghost before_values = self.values();
            if (self.data[i].last_accessed as u128) + (self.data[i].timeout as u128) < (current_time as u128) {
                self.data[i].id = String::new();
                assert(self.view() =~= before.update(i as int, expired(before[i as int], current_time)));
                assert(self.values() =~= before_values);
            }
            i += 1;
        }
        assert(self.view() =~= spec_cleanup(old(self).view(), current_time));
        proof {
            let c = self.view();
            let o = old(self).view();
            assert forall|a: int, b: int|
                0 <= a < c.len() && 0 <= b < c.len() && a != b && (#[trigger] c[a]).0.len() > 0 implies c[a].0
                != (#[trigger] c[b]).0 by {
                assert(c[a] == expired(o[a], current_time));
                assert(c[b] == expired(o[b], current_time));
            }
        }
    }

    fn find(&self, session_id: &str) -> (r: Option<usize>)
        ensures
            r matches Some(i) ==> first_index(self.view(), id_pred(session_id@)) == Some(i as int)
                && i < self.view().len(),
            r is None ==> first_index(self.view(), id_pred(session_id@)) is None,
    {
        let n = self.data.len();
        let mut i: usize = 0;
        while i < n
            invariant
                n == self.data@.len(),
                i <= n,
                forall|j: int| 0 <= j < i ==> !(#[trigger] id_pred(session_id@)(self.view()[j])),
            decreases n - i,
        {
            if str_eq(self.data[i].id.as_str(), session_id) {
                proof {
                    lemma_first_index_at(self.view(), id_pred(session_id@), i as int);
                }
                return Some(i);
            }
            i += 1;
        }
        proof {
            lemma_first_index_at(self.view(), id_pred(session_id@), n as int);
        }
        None
    }

    fn access_slot(&mut self, i: usize, current_time: u64) -> (r: &mut S)
        requires
            old(self).wf(),
            i < old(self).view().len(),
        ensures
            *r == old(self).values()[i as int],
            final(self).view() == old(self).view().update(
                i as int,
                (old(self).view()[i as int].0, current_time, old(self).view()[i as int].2),
            ),
            final(self).values() == old(self).values().update(i as int, *final(r)),
            final(self).timeout() == old(self).timeout(),
            final(self).clock() == old(self).clock(),
    {
        let e = &mut self.data[i];
        e.last_accessed = current_time;
        &mut e.data
    }

    fn open_slot(&mut self, j: usize, session_id: &str, current_time: u64) -> (r: &mut S)
        requires
            old(self).wf(),
            j < old(self).view().len(),
            forall|k: int| 0 <= k < old(self).view().len() ==> (#[trigger] old(self).view()[k]).0 != session_id@,
        ensures
            final(self).view() == old(self).view().update(
                j as int,
                (session_id@, current_time, old(self).timeout()),
            ),
            final(self).values() == old(self).values().update(j as int, *final(r)),
            final(self).timeout() == old(self).timeout(),
            final(self).clock() == old(self).clock(),
            call_ensures(S::default, (), *r),
    {
        let timeout = self.default_session_timeout;
        let e = &mut self.data[j];
        e.id = String::from_str(session_id);
        e.data = S::default();
        e.timeout = timeout;
        e.last_accessed = current_time;
        &mut e.data
    }

    /// Frees the expired sessions (reading the time from the clock), then tells whether a
    /// session with id `session_id` exists, recording the access when it does.
    pub fn is_existing(&mut self, session_id: Option<&str>) -> (r: bool)
        requires
            old(self).wf(),
            old(self).clock().requires(()),
        ensures
            final(self).wf(),
            final(self).timeout() == old(self).timeout(),
            final(self).clock() == old(self).clock(),
            final(self).values() == old(self).values(),
            exists|now: u64| {
                &&& old(self).clock().ensures((), now)
                &&& r == existing_slot(old(self).view(), session_id_view(session_id), now) is Some
                &&& final(self).view() == spec_access(old(self).view(), session_id_view(session_id), now)
            },
    {
        let now = (self.current_time)();
        self.is_existing_at(session_id, now)
    }

    /// `is_existing` at time `current_time`.
    pub fn is_existing_at(&mut self, session_id: Option<&str>, current_time: u64) -> (r: bool)
        requires
            old(self).wf(),
        ensures
            final(self).wf(),
            final(self).timeout() == old(self).timeout(),
            final(self).clock() == old(self).clock(),
            final(self).values() == old(self).values(),
            r == existing_slot(old(self).view(), session_id_view(session_id), current_time) is Some,
            final(self).view() == spec_access(old(self).view(), session_id_view(session_id), current_time),
    {
        self.cleanup(current_time);
        match session_id {
            Some(id) => match self.find(id) {
                Some(i) => {
                    let ghost c = self.view();
                    let ghost vals = self.values();
                    self.data[i].last_accessed = current_time;
                    assert(self.view() =~= c.update(i as int, (c[i as int].0, current_time, c[i as int].2)));
                    assert(self.values() =~= vals);
                    proof {
                        let v = self.view();
                        assert forall|a: int, b: int|
                            0 <= a < v.len() && 0 <= b < v.len() && a != b && (#[trigger] v[a]).0.len() > 0 implies v[a].0
                            != (#[trigger] v[b]).0 by {
                            assert(v[a].0 == c[a].0);
                            assert(v[b].0 == c[b].0);
                        }
                    }
                    true
                },
                None => false,
            },
            None => false,
        }
    }

    /// Frees the expired sessions (reading the time from the clock), then gives access to the
    /// data of the session with id `session_id`, recording the access, if there is one.
    pub fn with_existing(&mut self, session_id: Option<&str>) -> (r: Option<&mut S>)
        requires
            old(self).wf(),
            old(self).clock().requires(()),
        ensures
            final(self).wf(),
            final(self).timeout() == old(self).timeout(),
            final(self).clock() == old(self).clock(),
            final(self).values().len() == old(self).values().len(),
            exists|now: u64| {
                &&& old(self).clock().ensures((), now)
                &&& final(self).view() == spec_access(old(self).view(), session_id_view(session_id), now)
                &&& match existing_slot(old(self).view(), session_id_view(session_id), now) {
                    Some(i) => r matches Some(d) && *d == old(self).values()[i]
                        && final(self).values() == old(self).values().update(i, *final(d)),
                    None => r is None && final(self).values() == old(self).values(),
                }
            },
    {
        let now = (self.current_time)();
        self.with_existing_at(session_id, now)
    }

    /// `with_existing` at time `current_time`.
    pub fn with_existing_at(&mut self, session_id: Option<&str>, current_time: u64) -> (r: Option<&mut S>)
        requires
            old(self).wf(),
        ensures
            final(self).wf(),
            final(self).timeout() == old(self).timeout(),
            final(self).clock() == old(self).clock(),
            final(self).values().len() == old(self).values().len(),
            final(self).view() == spec_access(old(self).view(), session_id_view(session_id), current_time),
            match existing_slot(old(self).view(), session_id_view(session_id), current_time) {
                Some(i) => r matches Some(d) && *d == old(self).values()[i]
                    && final(self).values() == old(self).values().update(i, *final(d)),
                None => r is None && final(self).values() == old(self).values(),
            },
    {
        proof {
            lemma_session_ops_wf(self.view(), session_id_view(session_id), Seq::<char>::empty(), current_time, self.timeout());
        }
        self.cleanup(current_time);
        match session_id {
            Some(id) => match self.find(id) {
                Some(i) => Some(self.access_slot(i, current_time)),
                None => None,
            },
            None => None,
        }
    }

    /// Frees the expired sessions (reading the time from the clock), then gives access to the
    /// data of the session with id `session_id`, recording the access; when there is none, opens
    /// it in the first free slot with default data and the default timeout; fails when no slot
    /// is free.
    pub fn with(&mut self, session_id: &str) -> (r: Result<&mut S, SessionError>)
        requires
            old(self).wf(),
            old(self).clock().requires(()),
        ensures
            final(self).wf(),
            final(self).timeout() == old(self).timeout(),
            final(self).clock() == old(self).clock(),
            exists|now: u64| {
                &&& old(self).clock().ensures((), now)
                &&& final(self).view() == spec_with(old(self).view(), session_id@, now, old(self).timeout())
                &&& match with_slot(old(self).view(), session_id@, now) {
                    Some((i, false)) => r matches Ok(d) && *d == old(self).values()[i]
                        && final(self).values() == old(self).values().update(i, *final(d)),
                    Some((j, true)) => r matches Ok(d) && call_ensures(S::default, (), *d) && final(self).values()
                        == old(self).values().update(j, *final(d)),
                    None => r == Err::<&mut S, SessionError>(SessionError::MaxSessionsReachedError)
                        && final(self).values() == old(self).values(),
                }
            },
    {
        let now = (self.current_time)();
        self.with_at(session_id, now)
    }

    /// `with` at time `current_time`.
    pub fn with_at(&mut self, session_id: &str, current_time: u64) -> (r: Result<&mut S, SessionError>)
        requires
            old(self).wf(),
        ensures
            final(self).wf(),
            final(self).timeout() == old(self).timeout(),
            final(self).clock() == old(self).clock(),
            final(self).view() == spec_with(old(self).view(), session_id@, current_time, old(self).timeout()),
            match with_slot(old(self).view(), session_id@, current_time) {
                Some((i, false)) => r matches Ok(d) && *d == old(self).values()[i]
                    && final(self).values() == old(self).values().update(i, *final(d)),
                Some((j, true)) => r matches Ok(d) && call_ensures(S::default, (), *d) && final(self).values()
                        == old(self).values().update(j, *final(d)),
                None => r == Err::<&mut S, SessionError>(SessionError::MaxSessionsReachedError)
                    && final(self).values() == old(self).values(),
            },
    {
        proof {
            lemma_session_ops_wf(self.view(), None, session_id@, current_time, self.timeout());
        }
        self.cleanup(current_time);
        let ghost c = self.view();
        proof {
            reveal_strlit("");
            assert(""@ =~= Seq::<char>::empty());
        }
        match self.find(session_id) {
            Some(i) => Ok(self.access_slot(i, current_time)),
            None => match self.find("") {
                Some(j) => {
                    proof {
                        lemma_first_index(c, id_pred(session_id@));
                        assert forall|k: int| 0 <= k < c.len() implies (#[trigger] c[k]).0 != session_id@ by {
                            assert(!id_pred(session_id@)(c[k]));
                        }
                    }
                    Ok(self.open_slot(j, session_id, current_time))
                },
                None => Err(SessionError::MaxSessionsReachedError),
            },
        }
    }

    /// Frees the expired sessions (reading the time from the clock), then frees the session with
    /// id `session_id`, telling whether there was one.
    pub fn invalidate(&mut self, session_id: Option<&str>) -> (r: bool)
        requires
            old(self).wf(),
            old(self).clock().requires(()),
        ensures
            final(self).wf(),
            final(self).timeout() == old(self).timeout(),
            final(self).clock() == old(self).clock(),
            final(self).values() == old(self).values(),
            exists|now: u64| {
                &&& old(self).clock().ensures((), now)
                &&& r == existing_slot(old(self).view(), session_id_view(session_id), now) is Some
                &&& final(self).view() == spec_invalidate(old(self).view(), session_id_view(session_id), now)
            },
    {
        let now = (self.current_time)();
        self.invalidate_at(session_id, now)
    }

    /// `invalidate` at time `current_time`.
    pub fn invalidate_at(&mut self, session_id: Option<&str>, current_time: u64) -> (r: bool)
        requires
            old(self).wf(),
        ensures
            final(self).wf(),
            final(self).timeout() == old(self).timeout(),
            final(self).clock() == old(self).clock(),
            final(self).values() == old(self).values(),
            r == existing_slot(old(self).view(), session_id_view(session_id), current_time) is Some,
            final(self).view() == spec_invalidate(old(self).view(), session_id_view(session_id), current_time),
    {
        self.cleanup(current_time);
        match session_id {
            Some(id) => match self.find(id) {
                Some(i) => {
                    let ghost c = self.view();
                    let ghost vals = self.values();
                    self.data[i].id = String::new();
                    assert(self.view() =~= c.update(i as int, (Seq::<char>::empty(), c[i as int].1, c[i as int].2)));
                    assert(self.values() =~= vals);
                    proof {
                        let v = self.view();
                        assert forall|a: int, b: int|
                            0 <= a < v.len() && 0 <= b < v.len() && a != b && (#[trigger] v[a]).0.len() > 0 implies v[a].0
                            != (#[trigger] v[b]).0 by {
                            assert(v[a].0 == c[a].0);
                        }
                    }
                    true
                },
                None => false,
            },
            None => false,
        }
    }
}

/// Expiry keeps the slots well formed.
pub proof fn lemma_cleanup_wf(s: Seq<SessionSlot>, now: u64)
    requires
        sessions_wf(s),
    ensures
        sessions_wf(spec_cleanup(s, now)),
        spec_cleanup(s, now).len() == s.len(),
{
    let c = spec_cleanup(s, now);
    assert forall|a: int, b: int|
        0 <= a < c.len() && 0 <= b < c.len() && a != b && (#[trigger] c[a]).0.len() > 0 implies c[a].0
        != (#[trigger] c[b]).0 by {
        assert(c[a] == expired(s[a], now));
        assert(c[b] == expired(s[b], now));
    }
}

/// Accessing, opening and freeing sessions keep the slots well formed.
pub proof fn lemma_session_ops_wf(s: Seq<SessionSlot>, session_id: Option<Seq<char>>, id: Seq<char>, now: u64, timeout: u64)
    requires
        sessions_wf(s),
    ensures
        sessions_wf(spec_access(s, session_id, now)),
        sessions_wf(spec_invalidate(s, session_id, now)),
        sessions_wf(spec_with(s, id, now, timeout)),
        spec_access(s, session_id, now).len() == s.len(),
        spec_invalidate(s, session_id, now).len() == s.len(),
        spec_with(s, id, now, timeout).len() == s.len(),
{
    lemma_cleanup_wf(s, now);
    let c = spec_cleanup(s, now);
    if let Some(sid) = session_id {
        lemma_first_index(c, id_pred(sid));
    }
    lemma_first_index(c, id_pred(id));
    lemma_first_index(c, id_pred(Seq::<char>::empty()));
    let v1 = spec_access(s, session_id, now);
    assert forall|a: int, b: int|
        0 <= a < v1.len() && 0 <= b < v1.len() && a != b && (#[trigger] v1[a]).0.len() > 0 implies v1[a].0
        != (#[trigger] v1[b]).0 by {
        assert(v1[a].0 == c[a].0 && v1[b].0 == c[b].0);
    }
    let v2 = spec_invalidate(s, session_id, now);
    assert forall|a: int, b: int|
        0 <= a < v2.len() && 0 <= b < v2.len() && a != b && (#[trigger] v2[a]).0.len() > 0 implies v2[a].0
        != (#[trigger] v2[b]).0 by {
        assert(v2[a].0 == c[a].0);
        if v2[b].0 != c[b].0 {
            assert(v2[b].0.len() == 0);
        }
    }
    let v3 = spec_with(s, id, now, timeout);
    assert forall|a: int, b: int|
        0 <= a < v3.len() && 0 <= b < v3.len() && a != b && (#[trigger] v3[a]).0.len() > 0 implies v3[a].0
        != (#[trigger] v3[b]).0 by {
        match with_slot(s, id, now) {
            Some((i, false)) => {
                assert(v3[a].0 == c[a].0 && v3[b].0 == c[b].0);
            },
            Some((j, true)) => {
                if a == j {
                    assert(!id_pred(id)(c[b]));
                } else if b == j {
                    assert(!id_pred(id)(c[a]));
                } else {
                    assert(v3[a].0 == c[a].0 && v3[b].0 == c[b].0);
                }
            },
            None => {},
        }
    }
}

/// A session that `with` accessed or opened at time `now` is found by a lookup at that time;
/// its slot then holds `now` as its last access time, so it is still found at any later time
/// up to `now` plus its timeout.
pub proof fn lemma_with_then_existing(s: Seq<SessionSlot>, id: Seq<char>, now: u64, timeout: u64)
    requires
        with_slot(s, id, now) is Some,
    ensures
        existing_slot(spec_with(s, id, now, timeout), Some(id), now) is Some,
        ({
            let k = with_slot(s, id, now).unwrap().0;
            &&& spec_with(s, id, now, timeout)[k].0 == id
            &&& spec_with(s, id, now, timeout)[k].1 == now
        }),
        forall|later: u64|
            now <= later <= now + #[trigger] spec_with(s, id, now, timeout)[with_slot(s, id, now).unwrap().0].2
                ==> existing_slot(spec_with(s, id, now, timeout), Some(id), later) is Some,
{
    let c = spec_cleanup(s, now);
    let v = spec_with(s, id, now, timeout);
    let c2 = spec_cleanup(v, now);
    lemma_first_index(c, id_pred(id));
    lemma_first_index(c, id_pred(Seq::<char>::empty()));
    let k = with_slot(s, id, now).unwrap().0;
    assert(v[k].0 == id);
    assert(v[k].1 == now);
    assert(c2[k] == expired(v[k], now));
    assert(id_pred(id)(c2[k]));
    lemma_first_index(c2, id_pred(id));
    assert forall|later: u64| now <= later <= now + #[trigger] v[k].2 implies existing_slot(
        v,
        Some(id),
        later,
    ) is Some by {
        let c3 = spec_cleanup(v, later);
        assert(c3[k] == expired(v[k], later));
        assert(id_pred(id)(c3[k]));
        lemma_first_index(c3, id_pred(id));
    }
}

/// Once a session is freed, no lookup of its id finds it, at any later time.
pub proof fn lemma_invalidate_then_gone(s: Seq<SessionSlot>, id: Seq<char>, now: u64, later: u64)
    requires
        sessions_wf(s),
        id.len() > 0,
    ensures
        existing_slot(spec_invalidate(s, Some(id), now), Some(id), later) is None,
{
    let c = spec_cleanup(s, now);
    lemma_cleanup_wf(s, now);
    lemma_first_index(c, id_pred(id));
    let v = spec_invalidate(s, Some(id), now);
    let c2 = spec_cleanup(v, later);
    assert forall|j: int| 0 <= j < c2.len() implies !id_pred(id)(#[trigger] c2[j]) by {
        assert(c2[j] == expired(v[j], later));
        match first_index(c, id_pred(id)) {
            Some(i) => {
                if j != i {
                    assert(v[j] == c[j]);
                    assert(c[i].0 == id);
                }
            },
            None => {
                assert(v[j] == c[j]);
            },
        }
    }
    lemma_first_index(c2, id_pred(id));
    if let Some(m) = first_index(c2, id_pred(id)) {
        assert(!id_pred(id)(c2[m]));
    }
}

/// A session not accessed within its timeout is not found.
pub proof fn lemma_expired_not_existing(s: Seq<SessionSlot>, id: Seq<char>, now: u64)
    requires
        forall|j: int| 0 <= j < s.len() && (#[trigger] s[j]).0 == id ==> s[j].1 + s[j].2 < now,
        id.len() > 0,
    ensures
        existing_slot(s, Some(id), now) is None,
{
    let c = spec_cleanup(s, now);
    assert forall|j: int| 0 <= j < c.len() implies !id_pred(id)(#[trigger] c[j]) by {
        assert(c[j] == expired(s[j], now));
    }
    lemma_first_index(c, id_pred(id));
    if let Some(m) = first_index(c, id_pred(id)) {
        assert(!id_pred(id)(c[m]));
    }
}

/// A lookup that finds a session records the access: the session's slot then holds the
/// lookup time, keeps its id and its timeout, and a lookup of the same id at any time up to
/// the lookup time plus that timeout still finds a session.
pub proof fn lemma_access_records_time(s: Seq<SessionSlot>, id: Seq<char>, now: u64, later: u64)
    requires
        existing_slot(s, Some(id), now) is Some,
    ensures
        ({
            let i = existing_slot(s, Some(id), now)->0;
            &&& 0 <= i < s.len()
            &&& spec_access(s, Some(id), now)[i] == (id, now, s[i].2)
        }),
        now <= later && later <= now + s[existing_slot(s, Some(id), now)->0].2 ==> existing_slot(
            spec_access(s, Some(id), now),
            Some(id),
            later,
        ) is Some,
{
    let c = spec_cleanup(s, now);
    lemma_first_index(c, id_pred(id));
    let i = existing_slot(s, Some(id), now)->0;
    assert(c[i] == expired(s[i], now));
    assert(c[i].0 == id);
    let v = spec_access(s, Some(id), now);
    assert(v[i] == (id, now, s[i].2));
    if now <= later && later <= now + s[i].2 {
        let c2 = spec_cleanup(v, later);
        assert(c2[i] == expired(v[i], later));
        assert(id_pred(id)(c2[i]));
        lemma_first_index(c2, id_pred(id));
    }
}

/// Read access to the headers of a request.
pub trait Headers {
    /// The value of the header `name`, if the request has one.
    spec fn header_value(&self, name: Seq<char>) -> Option<Seq<char>>;

    /// The value of the header `name`, if the request has one.
    fn header(&self, name: &str) -> (r: Option<&str>)
        ensures
            r is Some == self.header_value(name@) is Some,
            r matches Some(v) ==> self.header_value(name@) == Some(v@),
    ;
}

impl<'b, const N: usize> Headers for crate::http::Headers<'b, N> {
    open spec fn header_value(&self, name: Seq<char>) -> Option<Seq<char>> {
        crate::http::spec_get(self.view(), name)
    }

    fn header(&self, name: &str) -> (r: Option<&str>) {
        self.get(name)
    }
}

/// The session id the `SESSIONID` cookie of a request carries.
pub fn get_cookie_session_id<'a, H: Headers>(headers: &'a H) -> (r: Option<&'a str>)
    ensures
        match headers.header_value("Cookie"@) {
            Some(c) => r is Some == spec_cookie_get(c, "SESSIONID"@) is Some && (r matches Some(v)
                ==> spec_cookie_get(c, "SESSIONID"@) == Some(v@)),
            None => r is None,
        },
{
    match headers.header("Cookie") {
        Some(cookies_str) => Cookies::new(cookies_str).get("SESSIONID"),
        None => None,
    }
}

/// The `Cookie` value of a request (empty when it has none).
pub open spec fn cookie_header_or_empty<H: Headers>(headers: &H) -> Seq<char> {
    match headers.header_value("Cookie"@) {
        Some(c) => c,
        None => Seq::empty(),
    }
}

/// Appends to `cookies` the `Cookie` header value of the request with its `SESSIONID` cookie
/// set to `session_id`.
pub fn set_cookie_session_id<H: Headers>(headers: &H, session_id: &str, cookies: &mut String)
    ensures
        final(cookies)@ == old(cookies)@ + cookie_text(
            spec_cookie_set(cookie_pairs(cookie_header_or_empty(headers)), "SESSIONID"@, session_id@),
        ),
{
    let cookies_str = match headers.header("Cookie") {
        Some(c) => c,
        None => {
            proof {
                reveal_strlit("");
            }
            ""
        },
    };
    assert(cookies_str@ == cookie_header_or_empty(headers));
    let mut pairs: Vec<(&str, &str)> = Vec::new();
    let mut it = CookieIterator::new(cookies_str);
    let ghost all = cookie_pairs(cookies_str@);
    loop
        invariant_except_break
            all == cookie_pairs(cookies_str@),
            all == crate::http::pairs_view(pairs@) + cookie_pairs_from(it.rest()),
        ensures
            all == crate::http::pairs_view(pairs@),
        decreases scan_size(it.rest()),
    {
        let ghost before = it.rest();
        proof {
            if let Some(s) = before {
                crate::cookies::lemma_after_char_shorter(s, ';');
            }
        }
        match it.next() {
            None => {
                assert(cookie_pairs_from(before) =~= Seq::<(Seq<char>, Seq<char>)>::empty());
                assert(all =~= crate::http::pairs_view(pairs@));
                break;
            },
            Some(p) => {
                assert(cookie_pairs_from(before) =~= seq![(p.0@, p.1@)] + cookie_pairs_from(it.rest()));
                pairs.push(p);
                assert(all =~= crate::http::pairs_view(pairs@) + cookie_pairs_from(it.rest()));
            },
        }
    }
    let pieces = Cookies::serialize(Cookies::set(pairs, "SESSIONID", session_id));
    let ghost target = pieces@.map_values(|s: &str| s@);
    let mut i: usize = 0;
    let ghost start = cookies@;
    while i < pieces.len()
        invariant
            i <= pieces@.len(),
            target == pieces@.map_values(|s: &str| s@),
            cookies@ == start + concat_pieces(target.take(i as int)),
        decreases pieces@.len() - i,
    {
        cookies.append(pieces[i]);
        assert(target.take(i + 1).drop_last() =~= target.take(i as int));
        assert(cookies@ =~= start + concat_pieces(target.take(i + 1)));
        i += 1;
    }
    assert(target.take(i as int) =~= target);
}

/// A session id written into the cookies of a request is what the `SESSIONID` cookie of the
/// resulting header value reads, when neither it nor the cookies already there hold `;` or `=`.
pub proof fn lemma_session_cookie_roundtrip(existing: Seq<char>, session_id: Seq<char>)
    requires
        plain_cookie_text(session_id),
        forall|i: int| 0 <= i < cookie_pairs(existing).len() ==> plain_cookie_text(
            (#[trigger] cookie_pairs(existing)[i]).0,
        ) && plain_cookie_text(cookie_pairs(existing)[i].1),
    ensures
        spec_cookie_get(cookie_text(spec_cookie_set(cookie_pairs(existing), "SESSIONID"@, session_id)), "SESSIONID"@)
            == Some(session_id),
{
    let p = cookie_pairs(existing);
    let q = spec_cookie_set(p, "SESSIONID"@, session_id);
    reveal_strlit("SESSIONID");
    assert forall|i: int| 0 <= i < q.len() implies plain_cookie_text((#[trigger] q[i]).0) && plain_cookie_text(q[i].1) by {
        if i < q.len() - 1 {
            let f = |e: (Seq<char>, Seq<char>)| e.0 != "SESSIONID"@;
            let r = crate::cookies::spec_cookie_remove(p, "SESSIONID"@);
            assert(r == p.filter(f));
            assert(q[i] == r[i]);
            assert(r.contains(r[i]));
            p.lemma_filter_contains_rev(f, r[i]);
            assert(p.contains(r[i]));
            let k = choose|k: int| 0 <= k < p.len() && p[k] == r[i];
            assert(plain_cookie_text(p[k].0));
        } else {
            assert forall|j: int| 0 <= j < "SESSIONID"@.len() implies "SESSIONID"@[j] != ';' && "SESSIONID"@[j] != '=' by {}
        }
    }
    lemma_cookie_text_roundtrip(q);
    lemma_cookie_set_then_get(p, "SESSIONID"@, session_id);
}

} // verus!
