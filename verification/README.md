# typst_collab

The verified core of a server on which clients edit shared documents
together. Clients send edits; an edit against an older revision is
transformed (with the `operational-transform` crate) against the operations
applied since, then applied; documents are cached and written back to object
storage.

- `src/` is the library, verified with Verus:
  - `ot.rs`: operation sequences of `operational-transform`, described by
    the list of operations they hold, and the trusted contracts of the calls
    into that crate;
  - `structs.rs`: the messages (requests, responses, edits, revisions) and
    how an edit becomes an operation sequence;
  - `document.rs`: a document's text and history, and applying operations;
  - `project.rs`: what a client's connection decides for each request;
  - `persist.rs`: which documents are written back to storage;
  - `mem_redis.rs`, `mem_db.rs`: cache keys and what storing a file writes;
  - `text.rs`: decimal numbers in messages.
- `app/` is the server around it: websockets (warp), object storage (minio),
  the cache (redis), serialization (serde), and the async loops.
- `tests/` runs the library on concrete values.
