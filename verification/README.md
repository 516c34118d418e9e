# russh_sftp

The SFTP (protocol version 3) packet codec and session bookkeeping, written
in Verus.

- `src/` is the verified library: the wire format of every packet, with a
  proof that each packet in canonical form (attributes as the wire carries
  them, each extension name once, at most 16384 name entries) reads back as
  it was written; the framing and its size limits; the server's table of
  open files and directories and the handles that name them; the decisions of the server's and the client's
  packet loops; and the read-ahead bookkeeping of a remote file.
- `app/` holds the asynchronous transport on top of it (tokio): reading and
  writing framed packets, the server's request loops, a managed session over
  a user's handler, and a remote file with `AsyncRead`, `AsyncWrite` and
  `AsyncSeek`.
- `tests/` exercises the library on concrete values.
