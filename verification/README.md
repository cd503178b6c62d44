# ps5

A Verus-verified library for PS5 payloads.

- `src/` — the verified library: a minimal HTTP/1.1 server core (request
  parsing as a state machine fed by socket reads, response encoding,
  per-connection decisions) and the decisions behind safe wrappers over the
  SDK's file, socket, thread and Sony `SceHttp2` client APIs. Every function
  carries a contract; the laws the library promises are proof functions next
  to the code they speak of (`law_*`).
- `app/` — the platform layer, not verified: the C declarations of the SDK
  functions, the types that own descriptors, sockets, pthreads and SCE
  handles, and the loops that make the calls and feed their results to the
  library.
- `tests/` — tests of the library on concrete values.
