# rem-exec

Remote process execution over SSH: `rx` runs on the controlling machine, `rxd`
on a host. Every operation answers with one JSON object.

- `src/` is the library: the wire format and its framing, the codes and shapes
  of requests and responses, process state and its files, the rules of the
  agent, the daemon, deployment and the command line. What these compute and
  decide is stated in contracts that Verus proves; a few wrappers around calls
  into std and libc carry contracts that are believed, each with a comment that
  says what it claims.
- `app/` is the program around it: arguments, files, sockets, processes. It
  drives the library's state machines and hands them plain values.
- `tests/` runs the library.

What depends on the outside world is written as a machine: a phase says what is
wanted next, an event says what came of it. The order of steps, what is refused
and what is answered are proved; `app/` only performs the steps.
