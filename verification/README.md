# linux_platform

Detects the Linux desktop session: which display server runs, which session
sits at the machine, whether a session is active or locked, where the user's
home directory is, and which displays a Wayland compositor has.

`src/` holds the decisions, verified with Verus. What must ask the system on
the way is written as a probe: it hands out a query, is resumed with the reply,
and so on until it is done. The contract of each probe says where each reply
takes it, and the laws beside it say what it finds in a system that does not
change.

- `text`: trimming, splitting, joining and ordering of texts
- `fields`: the `KEY=VALUE` files of logind
- `session`, `seat`, `status`: sessions, the one at the seat, and their state
- `display_server`, `detect`: the display server of a session and of the machine
- `loginctl`: running `loginctl`, and remembering its answers
- `command`, `message`: shell commands, and messages on the screen
- `desktop`, `home`, `wayland`: desktop, home directory, displays
- `query`: what probes ask, and what the system replies

`app/` answers the queries from the running system. `tests/` drives the probes
with systems made up for the purpose.
