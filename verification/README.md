# synly

Keyboard and pointer sharing between two machines. The pointer leaves one desktop at an edge
and comes in on the other one; until it comes back, keyboard, buttons, wheel and movements go
to the other machine.

The library under `src/` holds what decides: its contracts are proved by Verus. It does no input
and output: it is told what has happened and answers with what is to be done.

## Layout

- `geometry`, `edge`, `movement`: desktops made of displays, their open edges, and where a
  moved pointer ends up. Positions on an edge are pairs of integers; fractions are left to the
  program.
- `hotkey`, `mapping`, `scroll`, `pressed`: key names and hotkeys, the mapping of keys between
  platforms, the conversion of scrolling, and what is held down.
- `protocol`, `framing`, `incoming`, `channel`, `identifier`: messages and their frames, the
  order in which they are handed on, and how the two ends prove who they are.
- `sender`, `receiver`, `session`: the two ends of a session as state machines. While the system
  protects what is typed on its machine, an end pauses and the session goes on.
- `mock`, `receiver_mock`: stand-ins for either end.
- `platform`, `macos`, `trackpad_debug`, `cursor_capture`, `windows_capture`, `windows_keys`,
  `windows_loop`: what capturing and injecting input on a platform decides.
- `agent_protocol`, `agent_client`, `agent_server`, `service`: a helper process with more
  rights, and the service of the system that starts it.
- `hotkey_laws`, `mapping_laws`, `sender_laws`, `receiver_laws`: what holds of several
  functions together. Laws about a single module stand in that module.
- `text`, `numeric`: small helpers.

The program under `app/` performs what the library decides: it talks to the network, to the
system and to the terminal. `tests/` runs the library on given values.

## What is trusted

The proofs rest on what a few wrappers say of other crates: the codes of `hmac` with `sha2`
(`channel`), the random identifiers of `uuid` and their texts (`identifier`), and the
certificates of `rcgen` (`channel`). Of a certificate only this is promised: it is not empty, and
not too long for a client to take.
