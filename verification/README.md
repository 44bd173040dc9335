# tcp_tunnel

A TCP tunnel: a client connects to a server, presents a token and keeps a
session open; the server then opens streams through that session on request
(`GET /:proto/:addr/:token` on its HTTP front end), and the client connects
each one to its target address.

- `src/` is the verified library: length-prefixed framing (`frame`), the
  session messages (`message`), the state and decisions of a session
  (`session`), the server's handshake and session registry (`server`), the
  HTTP replies (`http`) and string comparison (`text`).
- `app/` holds the programs and everything that does I/O: the async read and
  write loops, the TCP and HTTP plumbing, the bincode encoding of messages and
  the retrying connect of the client.
- `tests/` exercises the library on concrete values.
