# hypershunt

The decisions of an HTTP server and reverse proxy, verified with Verus: what a
request meets on its way to a handler, how clients sign on with OpenID Connect,
how streams and datagrams are passed on, and how all of it is counted.

- `src/` is the library. Every function states what it returns or changes, and
  Verus proves it. Laws that relate several functions are public proof functions
  whose names begin with `law_`.
  - `listener`: sockets, the request pipeline, HTTP and HTTP/3 connections, stream
    and datagram proxying.
  - `oidc`: discovery, logins, sessions, bearer tokens and back-channel logout.
  - `metrics`: counters, histories and the figures that are shown of them.
  - `proxy_proto`, `matcher`, `rate_limit`, `otel`, `privdrop`, `startup`: the PROXY
    protocol, request matching, rate limits, trace headers, giving up root, and the
    start of the server.
  - `text`, `decimal`, `ip`, `path`, `strmap`, `headers`, `pattern`, `reply`: what the others
    are built on.
- `tests/` runs the library on concrete values.
- `app/` is the server around it: sockets, timers, TLS, HTTP and the exporters.

Functions marked `external_body` call other crates. Their doc comments say which
function they call and what is relied on.
