# Schorl

Schorl is a work environment for a head-mounted display on Linux: client windows stand around
the viewer in a black space, hands point at them and move them, and clicks and keys go to the
programs behind them. This crate is its verified core, written in Verus.

## Layout

- `src/` is the library. Every function in it is verified: what it computes, when it fails and
  with which error, and what it leaves unchanged is stated in its contract. Promises that span
  several functions are public proof functions whose names begin with `law_`.
- `tests/` runs the library on concrete values.
- `app/` is ordinary Rust around the library: the Wayland server, the graphics device, the
  session of the runtime, captures of the host's outputs, and everything in floating point.

## How decisions and effects are kept apart

The library never touches the host. Where work alternates with decisions, the library holds
the decisions as functions from what is known to what is to be done next, and `app/` does it
and reports back. Where the library needs somebody else to act in the middle of its own work
(run a command, write a line, wait, show a frame), it goes through a trait that keeps a history
of what was asked and answered, and its contracts speak of that history. A clock keeps no
history: its trait says which times it may name.

A few outside functions are called from the library and believed: the clock of the system, the
text of a fresh version seven UUID, the fields of a packed version number, the names of result
codes, and `String::push`. Each says above its declaration what is claimed of it.
