# hyper_uds

HTTP over Unix domain sockets, for hyper's client and server.

A request names its socket in the URI. `make_hyper_uri(base, path)` writes the path of the socket
in hexadecimal where the host belongs, and `UdsConnector::call` reads it back:

    /tmp/hyper_uds.sock  and  /foo/?bar=baz
    unix://2f746d702f68797065725f7564732e736f636b:0/foo/?bar=baz

A path that has an at sign before its first slash, question mark or number sign moves the host,
and the URI then names whatever socket the path says.

- `src/` is the library. Its behaviour is stated in contracts that Verus proves.
  - `uri`, `hexcode`: URIs and their hosts.
  - `connector`: from a URI to a socket.
  - `read_half`, `write_half`, `buffer`, `stream_error`: the two halves of a stream over a socket
    that only blocks, and the threads that serve them.
  - `socket`, `sockaddr`, `incoming`: opening, reading and accepting.
- `app/` joins the library to hyper, tokio and the operating system.
- `tests/` runs the library.
