# IC705 Bridge

A bridge to an Icom IC-705 over Wi-Fi: it speaks the RS-BA1 network protocol, carries CI-V frames in
both directions, and offers a local HTTP API for scripts.

The library in `src/` is written in Verus: what it does is stated in contracts and proved. It does no
input or output. Its functions take datagrams, events and times, and return datagrams and decisions.

- `util`, `text`, `error`: hexadecimal frames, small texts, errors;
- `rsba1::wire`, `passcode`: bytes on the wire, encoding of the credentials;
- `rsba1::pkt0`, `rx`, `stream`, `handshake`: numbering, retransmission in both directions, pings,
  idle packets, the opening of a stream;
- `rsba1::control`, `owner`, `setup`: the control stream, from the login to the opening of the serial
  stream;
- `rsba1::serial`: the serial stream and its CI-V channel;
- `session`: CI-V exchanges, the watch over the link, the end of a session;
- `state`, `commands`, `api`: the state of the application, the commands of the user, the rules of
  the HTTP API.

`app/` is the application around it: sockets, timers, HTTP server, window. `tests/` runs the library
on concrete values.

Times are nanoseconds on a monotonic clock of the caller.
