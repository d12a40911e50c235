# juno_http

An HTTP module for the juno microservices framework. Juno functions
(`get`, `post`, `use`, ..., `listen`, `clearConfig`) register routes and
middleware; the HTTP server forwards each matching request, as a juno
value describing it, to the registered juno function, and turns the
function's reply into the HTTP response.

As the module stands, no request gets that far: building a request's
context sets the `Server` header before the juno representation exists,
and setting a header needs the representation's `headers` entry, so every
request fails (panics) while its context is created: `HttpContext::new`
has a precondition that no call meets, and the program panics at that
point.

- `src/` is the library, verified with Verus: handler configurations and
  the server's configuration loop, the request context and its juno
  representation, the handlers' decisions, the reading of juno function
  arguments, and the text helpers they rest on. JSON reading and writing
  go through serde_json behind trusted wrappers.
- `app/` is the program around it: the async runtime, the juno
  connection, the HTTP framework, the channels between them, and the
  conversions between juno's values and the library's.
- `tests/` exercises the library on concrete values.
