# playground

A set of small async and I/O demos (tokio tasks and channels, Ctrl+C handling,
logging, an image window, MAC address lookup, XML metadata, AVI recovery) and a
`Person` record, with the logic behind them verified by Verus.

- `src/` is the verified library: decimal text of integers (both ways),
  `Person`, the camera tasks' shared frame board, reading an ONVIF document
  with `quick-xml` and scanning its events for a licence plate, the `.CHK` →
  AVI scan, decoding and greying the window's picture with `image`, the
  decisions of the counting and receiving loops, the image viewer's keys, and
  the lines the demos print.
- `app/` is the program: one subcommand per demo. It does the I/O, the
  awaiting and the sleeping, parses floats, and hands the library plain
  values.
- `tests/` runs the library on concrete inputs.
