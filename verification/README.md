# rdpwrap

A DLL that the service host loads in place of the terminal service of Windows.
It reads `rdpwrap.ini` beside itself, loads `termsrv.dll`, applies the patches
that the configuration has for that version, answers the policy queries that the
configuration names, and passes the service calls on.

- `src/` is the logic, verified with Verus: the INI grammar and its lookups, the
  jumps and patches, the policy queries, and the order of everything that the
  wrapper asks of the system. It makes no call into the system: it takes answers
  and returns what to do next.
- `app/` makes the calls. `runner.rs` does what the library asks for through the
  trait in `platform.rs`; `windows.rs` implements that trait, and `exports.rs`
  holds the exports of the DLL and the functions that the jumps go to.
- `tests/` runs the library on concrete values.
