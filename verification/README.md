# file_channel

An asynchronous channel whose backlog lives in a file: a sender appends
chunks of bytes to the file, and any number of receivers read them back
from the start, each at its own pace, waiting for more until the sender is
done. A second pair of halves offers the same over a temporary file as an
`AsyncWrite` writer and an `AsyncRead` reader.

- `src/` is the verified library (Verus): the ring buffer (`buf`,
  `fs::buf`), the file reader and writer state machines (`fs::reader`,
  `fs::writer`), the sender's and receivers' decisions (`sender`,
  `receiver`), the shared state with the receivers' waker slots (`state`,
  over the `slab` crate), and the decisions of the byte-stream halves
  (`channel`).
- `app/` is the asynchronous shell around it: the futures, the blocking
  file I/O (`preadv`/`pwritev` through `libc`, `read_at`/`write_all_at`),
  tokio's blocking pool, and the `Sink`, `Stream`, `AsyncRead` and
  `AsyncWrite` impls.
- `tests/` runs the library on concrete values.
