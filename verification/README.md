# throughput

A throughput meter for time-sensitive networks. A client and a server exchange
raw Ethernet frames; the server counts what arrives and prints rates.

* `src/` is the verified library: the frame format, the operations, the client's
  request, the server's answers and counters, and the arithmetic of the reports.
  Every function carries a contract that Verus proves. The few outside calls
  (byte order, the encoding of frames, hexadecimal text, the monotonic clock) are
  declared next to the code that uses them; their contracts are believed, not
  proved.
* `tests/` runs the library on concrete values.
* `app/` is the program: arguments, sockets, signals, threads and printing.
