# streaming_http_range_client

A client for streaming HTTP `Range` requests, verified with Verus.

- `src/` is the verified library: `http_range` (byte ranges and how they split),
  `client_state` (position, requested range and usage counters of a client, the
  decisions of every client operation, and the seek planner, with laws stating that
  the reader stays in step with the resource), `local_bytes` (an in-memory byte
  source that cuts requests at the end of the resource), `request` (the `Range`
  header and the status check), `pending_chunk` (the chunk buffer of a reader over a
  stream of body chunks), `decimal` and `error`.
- `app/` holds the asynchronous client: the HTTP requests, the readers and the async
  plumbing, which consult the library before and after each request or read.
- `tests/` runs the library on concrete values, including the client scenarios with
  an in-memory resource.
