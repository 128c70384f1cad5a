# acs

`acs` drives serial ports and XBee modules from the command line: it sends sample packets,
watches ports, relays bytes, talks to a module, and measures round-trip times between a pair of
modules.

- `src/` is the logic, verified with Verus: arguments and settings, packet formats and their
  decoders, the questions that fill in what a command line leaves open, schedules, session
  states, the round-trip protocol, and the texts that are shown.
- `app/` is the program around it: the terminal, serial ports, files, and the commands of git
  and cargo.
- `tests/` runs the library.

Whatever comes from outside (which ports there are, what was typed, what time it is, how a write
went) reaches the library as a plain value. Times are nanoseconds. Send rates of `io` may be
fractions, so their numbers stay texts in the library; the program reads them.
