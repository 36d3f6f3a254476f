# lamco_rdp_server

The decisions of a Wayland remote desktop server, verified with Verus.

`src/` holds what the server decides and computes, from plain values to plain
values, with contracts: damage regions and their debt, the frame loop and its
state, frame turning, padding and scaling, the H.264 regions of a frame, cursor
images, the modes of the compositor, who may connect and how, what starting and
stopping the server does, and the sessions that capture the screen and take
input.

- `damage`, `arith`, `text`, `video`: shared models and helpers
- `server`: the frame pipeline, graphics, cursors, security, startup, clean-up
- `session`: how a session is made, and the ways of making one

Facts that relate several functions are proof functions named `law_*`, next to
the functions that they speak of.

`app/` is ordinary Rust around the library: clocks, files, sockets, the portal,
the EIS protocol and the RDP server. `tests/` runs the library.
