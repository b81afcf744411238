# rmux

The rules of a terminal multiplexer, written in Rust and proved with Verus: how
windows move between sessions, what options accept, how pane output becomes
lines, how a client and a daemon find each other, and what each command of the
command line asks of the server.

- `src/` is the library, whose functions carry contracts that Verus checks.
  Nothing in it reads, writes or waits; where the outside world has a say, a
  function takes what it said and answers what to do next. The few calls
  into the standard library and `rustix` that Verus cannot look into say in their
  doc comments what is taken on trust.
- `app/` is the code around the library that does read, write and wait.
- `tests/` runs the library on concrete values.

Properties that span several functions are public proof functions whose names
begin with `law_`.
