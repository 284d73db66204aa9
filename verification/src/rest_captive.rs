use vstd::prelude::*;

use vstd::string::StringExecFns;
use vstd::utf8::encode_utf8;
use crate::http_server::{answered, header_pairs, Connection, Handler, HandlerResult, Headers};

verus! {

/// Whether a request passes the captive portal: always when the portal is off, else when
/// its `Host` is an allowed one (`host_allowed`), or when it names no host (`None`).
pub open spec fn portal_passes(captive: bool, host_allowed: Option<bool>) -> bool {
    !captive || match host_allowed {
        Some(allowed) => allowed,
        None => true,
    }
}

/// What the portal does with a request: hands it to `handler` when it passes; else answers
/// `307` with the portal page `portal_uri` as `Location`.
pub open spec fn portal_outcome<C: Connection, H: Handler<C>>(
    handler: H,
    passes: bool,
    portal_uri: Seq<char>,
    before: C,
    after: C,
    r: HandlerResult,
) -> bool {
    if passes {
        handler.handled(before, after, r)
    } else {
        answered(before, after, r, 307u16, seq![("Location"@, portal_uri)])
    }
}

/// A guard in front of handlers that, while the portal is on, sends requests for hosts
/// other than the allowed ones to the portal page.
pub struct WithCaptivePortalMiddleware<F> {
    captive: bool,
    portal_uri: &'static str,
    allowed_hosts: F,
}

impl<F: Fn(&str) -> bool> WithCaptivePortalMiddleware<F> {
    /// Whether the portal is on.
    pub closed spec fn captive(&self) -> bool {
        self.captive
    }

    /// The portal page.
    pub closed spec fn portal_uri(&self) -> Seq<char> {
        self.portal_uri@
    }

    /// Which hosts pass while the portal is on.
    pub closed spec fn allowed_hosts(&self) -> F {
        self.allowed_hosts
    }

    pub fn new(captive: bool, portal_uri: &'static str, allowed_hosts: F) -> (r: Self)
        ensures
            r.captive() == captive,
            r.portal_uri() == portal_uri@,
            r.allowed_hosts() == allowed_hosts,
    {
        WithCaptivePortalMiddleware { captive, portal_uri, allowed_hosts }
    }

    /// Turns the portal on or off.
    pub fn set_captive(&mut self, captive: bool)
        ensures
            final(self).captive() == captive,
            final(self).portal_uri() == old(self).portal_uri(),
            final(self).allowed_hosts() == old(self).allowed_hosts(),
    {
        self.captive = captive;
    }

    /// Hands the request to `handler` when it passes the portal (its `Host`, if it names
    /// one, checked with `allowed_hosts`); answers `307` to the portal page otherwise.
    pub fn handle<C: Connection + Headers, H: Handler<C>>(&self, connection: &mut C, handler: &H) -> (r:
        HandlerResult)
        requires
            forall|h: &str| self.allowed_hosts().requires((h,)),
        ensures
            !self.captive() ==> handler.handled(*old(connection), *final(connection), r),
            self.captive() ==> match old(connection).header_value("host"@) {
                Some(h) => exists|host: &str, allowed: bool|
                    #![trigger self.allowed_hosts().ensures((host,), allowed)]
                    host@ == h && self.allowed_hosts().ensures((host,), allowed) && portal_outcome(
                        *handler,
                        allowed,
                        self.portal_uri(),
                        *old(connection),
                        *final(connection),
                        r,
                    ),
                None => handler.handled(*old(connection), *final(connection), r),
            },
    {
        let host_allowed = if self.captive {
            match connection.header("host") {
                Some(host) => {
                    assert(self.allowed_hosts().requires((host,)));
                    Some((self.allowed_hosts)(host))
                },
                None => None,
            }
        } else {
            None
        };
        self.handle_with(connection, handler, host_allowed)
    }

    /// Hands the request to `handler` when it passes the portal, given whether its host is
    /// allowed (`None`: it names none); answers `307` to the portal page otherwise.
    pub fn handle_with<C: Connection, H: Handler<C>>(
        &self,
        connection: &mut C,
        handler: &H,
        host_allowed: Option<bool>,
    ) -> (r: HandlerResult)
        ensures
            portal_outcome(
                *handler,
                portal_passes(self.captive(), host_allowed),
                self.portal_uri(),
                *old(connection),
                *final(connection),
                r,
            ),
    {
        let allow = !self.captive || match host_allowed {
            Some(allowed) => allowed,
            None => true,
        };
        if allow {
            handler.handle(connection)
        } else {
            let headers = [("Location", self.portal_uri)];
            assert(header_pairs(headers@) =~= seq![("Location"@, self.portal_uri@)]);
            connection.into_response(307, None, &headers)
        }
    }
}

/// The status document of the portal: whether it is on, and its page.
pub open spec fn captive_status_text(captive: bool, portal_uri: Seq<char>) -> Seq<char> {
    "\n        {\n            \"captive\": "@ + (if captive {
        "true"@
    } else {
        "false"@
    }) + ",\n            \"user-portal-url\": \""@ + portal_uri + "\"\n        }"@
}

/// Writes the status document of the portal.
pub fn captive_status_json(captive: bool, portal_uri: &str) -> (r: String)
    ensures
        r@ == captive_status_text(captive, portal_uri@),
{
    let mut data = String::new();
    data.append("\n        {\n            \"captive\": ");
    if captive {
        data.append("true");
    } else {
        data.append("false");
    }
    data.append(",\n            \"user-portal-url\": \"");
    data.append(portal_uri);
    data.append("\"\n        }");
    data
}

/// Answers the request with the status document of the portal, as
/// `application/captive+json`, when it fits in `N` bytes.
pub fn get_status<C: Connection, const N: usize>(request: &mut C, portal_uri: &str, captive: bool) -> (r:
    HandlerResult)
    ensures
        r is Ok ==> final(request).response_status() == Some(200u16),
        r is Ok ==> final(request).body() == old(request).body() + encode_utf8(
            captive_status_text(captive, portal_uri@),
        ),
        old(request).responds() ==> r is Ok,
{
    let data = captive_status_json(captive, portal_uri);
    let headers = [("Content-Type", "application/captive+json")];
    match request.into_response(200, None, &headers) {
        Ok(()) => {},
        Err(e) => {
            return Err(e);
        },
    }
    request.write_all(data.as_str().as_bytes())
}

} // verus!
