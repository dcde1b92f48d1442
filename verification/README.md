# hotaru

HTTP/1 message handling with machine-checked contracts: header field lines,
header blocks, start lines, the typed header caches of a message, message
heads read from buffered bytes, body framing and body parsing, and the
decisions of capped byte transfers.

Layout:

- `src/` — the library, verified with Verus.
  - `text.rs`, `entries.rs` — text and ordered-map helpers with their
    mathematical models.
  - `header/` — field lines, header values, the header block (`HeaderMap`).
  - `http_value/` — status codes, versions, methods, request targets,
    content types, content disposition, language lists.
  - `start_line/` — request lines, status lines, `HttpStartLine`.
  - `util/` — transfer/content codings, Connection options, cookies.
  - `meta/` — `HttpMeta`: a start line, a header block and the typed caches,
    serialisation (`represent`), reading a head from its lines, and
    (`line_read.rs`) a header block read line by line over a whole source.
  - `body/` — `HttpBody`, body errors, framing and chunk decisions,
    parsing and serialising bodies.
  - `transfer.rs` — transfer outcomes, the decisions of capped reads and
    writes, and what the read loops give over a whole source.
  - `context.rs` — preparing a message for sending.
- `app/` — asynchronous IO around the library: the reader and writer traits
  with their default helpers, reading heads and bodies off a buffered
  reader, sending a message.
- `tests/` — tests of the library on concrete values.
