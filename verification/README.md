# rtmp

An RTMP ingest server that records what a client publishes as FLV files,
with its protocol logic written in Verus and proved against its contracts.

- `src/` is the verified library:
  - `amf0`: AMF0 strings, numbers, values, objects, ECMA arrays and value
    sequences, read from and written to bytes;
  - `flv`: the FLV file header and FLV tags;
  - `rtmp`: chunk headers, chunk streams, messages and their chunking over a
    connection (`Connection::recv` / `Connection::send` work on byte slices),
    the server side of the handshake as a step function, and the per-client
    session (`Session::handle_message`), which decides what the server sends,
    records and announces for each message;
  - `bytes`, `error`: byte-order helpers and the error types.
- `app/` is the program: it accepts TCP clients, performs the reads and writes
  that the handshake steps and the session ask for, and writes
  `runtime/<client id>.flv`.
- `tests/` runs the library on concrete inputs.
