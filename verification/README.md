# orpc

A Rust library for the oRPC protocol whose core is written in Verus and
proved against its contracts.

- `src/` is the verified library: route metadata and error codes, the JSON
  model and its compact serializer, the RPC envelope and multipart decoding,
  meta reconstruction (`BigInt`, `Date`, `Set`, `Map`, `undefined`), the
  procedure router, RPC routing for `GET` (`?data=`) and `POST` and the
  choice between a JSON answer and an event stream, OpenAPI path matching and
  input decoding (query parameters in bracket notation nest), server-sent
  event framing on both the server and the client side, file values, the
  service-method checks and the IPC response values. Calls into `base64`,
  `serde_urlencoded` and `reqwest` go through a few trusted wrappers whose
  contracts are stated next to them.
- `app/` is the unverified shell around it: serde conversions, the async
  procedure engine, the axum HTTP handler, the reqwest client and the typed
  builder API.
- `tests/` holds the test suite, run against the compiled library.

Laws that span several functions (round trips of error codes, files, event
frames and URLs; the whole event stream of a procedure stream; the most
specific route winning, whatever the order routes were registered in; a
chunked event stream read the same however it is cut; what the router returns after an insert; what meta
reconstruction does to a value) are public proof functions in the modules
they concern.
