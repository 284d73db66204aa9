# Service utilities for embedded devices

Helpers for services on embedded devices — HTTP headers, cookies and sessions, request
routing and middleware, WebSocket servers, MQTT and event-bus hand-overs, signals, timers,
copying between byte streams, a captive portal's DNS answers and Wi-Fi configuration —
written as a library whose behaviour is stated in `requires`/`ensures` contracts and proved
with Verus.

Layout:

- `src/` — the library. Each module states its data through spec functions and views and
  proves its functions against them. Laws that relate several functions stand as public
  `proof fn`s next to the functions they speak of. Calls into the `domain` crate (DNS
  messages) go through small trusted wrappers in `src/captive.rs`.
- `tests/` — tests of the library on concrete values, one or more for each law.
- `app/` — what needs the operating system: locks and condition variables that drive the
  library's state machines across threads, the DNS server's socket and thread, JSON through
  serde and errors through anyhow.

Blocking and asynchronous primitives of the library are written as state machines: each
function takes the shared state and performs one step, and says whether the caller has to
wait and try again. The caller (in `app/`) owns the lock and the condition variable.
