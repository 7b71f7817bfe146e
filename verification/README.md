# malalongxia

The verified core of a desktop installer that sets up Node.js, Git and the
OpenClaw gateway, and configures its AI providers.

- `src/` is the library, checked by Verus: version checks, text handling of
  command output, the fields read from and written to JSON documents (through
  serde_json), PATH discovery and merging, mirror selection, the install
  routes, the npm retry loop and the wait for the gateway, and the reports
  and most of the messages the installer shows. The errors raised by the
  process, HTTP and file work itself (a command that could not start, a
  missing home directory, a gateway that did not come back after a
  restart) are written in `app/`, where that work happens.
  Each public function states its result over spec functions; the `lemma_*`
  proof functions state laws that hold across calls.
- `app/` is a command-line front end around the library: it runs the
  processes, HTTP requests and file operations, and hands what it observed
  to the library.
- `tests/` exercises the library on concrete values.
