# agent_desktop

The decision logic of a Linux desktop-control server, verified with Verus.

- `src/` is the library: key chords and the input events they become,
  window and element targeting, the steps of a request from its checks to
  its answer, decoding of captured frames, script limits, session
  environments, virtual seats and farms of them, installation checks. Every
  function carries a `requires`/`ensures` contract that Verus proves; the
  few calls into outside crates stand behind small trusted wrappers whose
  contracts say what those crates' sources show.
- `tests/` runs the library on concrete values.
- `app/` is the command-line program around it: it reads the machine (the
  environment, `/proc`, the session bus, the X server, desktop entries),
  carries out what the library decides and prints the results.

The library verifies with Verus on `src/lib.rs`; the tests and the program
build with Cargo against it.
