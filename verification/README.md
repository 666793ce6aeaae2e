# sipmon

A passive monitor of SIP signaling and RTP media quality. It reads a network
interface, a capture file or an event log, follows calls and media streams, points
out what goes wrong, and shows it all on a terminal.

* `src/` is the library, verified with Verus: decoders (`decode`), calls and streams
  (`correlate`), findings (`diagnostics`), statistics, the registry and the binary
  event log (`store`), exports and imports (`export`, `json`), the call filter
  (`filter`), and the state behind the screens (`ui`). Contracts are stated over
  views: a call, a stream or a whole correlator is a mathematical value, and each
  operation a function from one such value to the next.
* `app/` is the program: capture with libpcap, files, the terminal, SQLite, and what
  is computed in floating point (MOS, jitter, averages). It hands the library plain
  values and takes plain values back.
* `tests/` runs the library.

Figures with a fraction enter the library as bits (`Real64`) or as text that is
ready to be shown; the library keeps, orders and places them, and does not compute
with them.

TURN servers and the addresses that they give out are learned from the Allocate
messages between them and their clients; media is then told apart by the side of the
relay on which it runs.
