# rfeign

A declarative HTTP client in the style of OpenFeign, whose decisions are
verified with Verus.

- `src/` is the verified library: the request model (method, path, headers,
  query, body; the URL and cURL command built from them), the retry policy and
  its backoff, bearer/basic/dynamic authentication and the token cache, the
  lines logged at each log level, the order in which a client runs a request
  through authentication, interceptors, middlewares and the transport, base URLs
  from registry instances, and the reading of the client attributes (HTTP
  methods, parameter roles, query formats, class headers, path templates).
  Calls into `http` and `base64` stand behind small trusted wrappers whose
  contracts are stated in their doc comments.
- `tests/` runs the library on concrete values.
- `app/` is the asynchronous runtime around it: the traits users implement,
  the client, the reqwest transport, Consul and Nacos discovery, the middleware
  impls and the code generation of the attributes.
