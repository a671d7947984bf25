# tiny_http

The deciding parts of a small HTTP server, verified with Verus.

- `src/framing.rs`: what the headers of a request say about its body, and which
  requests are refused for them.
- `src/request.rs`: a request from its headers to its answer.
- `src/util/equal_reader.rs`: a reader held to the length of a body.
- `src/util/task_pool.rs`: a pool of threads and its queue of tasks.
- `src/common.rs`, `src/ascii.rs`, `src/io_error.rs`: the values these work on.

The library does no input or output. Each function that has to wait for some
takes what came of it as an argument and says what to do next. `app/` holds the
sockets, threads and channels around it.

The public proof functions whose names start with `law_` state what holds of
whole runs: that a limited reader is left right behind its body, that a pool
keeps its limits and its order, that a body does not depend on how it arrives.
