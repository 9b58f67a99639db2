# tower-hil

The host side of a hardware-in-the-loop bench for the TOWER firmware SDK: a TOWER Core Module and a
TOWER Radio Dongle on serial ports, and a Nordic PPK2 that supplies and measures the Core.

- `src/` is the library, verified with [Verus](https://github.com/verus-lang/verus). It decodes
  payloads into typed frames, accounts for missing frames, reassembles management replies, resolves
  the bench roster and speaks the current sidecar's line protocol. It performs no input or output:
  callers hand over what came of it. `src/laws` states what holds across the operations.
- `tests/` runs the library on concrete values.
- `app/` opens the ports, reads the files and spawns the processes. Its `protocol` module needs the
  `tower-protocol` crate and its `console` module needs `jolt`; both come from their own git
  repositories.

`wire` decodes the payload layouts of wire version 3, and `encoding` states how their fields are
encoded. The pin of `tower-protocol` has to move in step with the firmware's: postcard is not
self-describing, and a mismatch decodes silently to something else. When it opens a console, `app/`
has the library read one probe of each record and stops if `tower-protocol` lays a record out in
another way.
