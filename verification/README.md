# fischy

Verified decision logic of an automatic fishing helper for a game client.

- `src/` (verified with Verus): screen-colour searches over screenshots
  (`screen`, `colors`, `geometry`, `search`), session statistics (`stats`),
  jittered and interruptible waits (`timing`), the running-process check
  (`process`), per-platform details (`platform`) and the state machines of the
  main and fishing loops (`control`).
- `app/`: screen capture, mouse and keyboard input, sleeping, logging and the
  loops that drive them, asking the library for every decision.
- `tests/`: unit tests of the library.
