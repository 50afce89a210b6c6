# rust_lib_flutter_alacritty

The core of a terminal widget: an engine around an Alacritty terminal that turns its
grid into flat frames for a host to paint. The library is written in Verus, and its
functions are verified against their contracts, with two exceptions. The functions marked
`external_body`, which make the calls into `alacritty_terminal` and the standard library,
are believed. The two `send_event` methods, which the terminal calls back, have bodies that
are checked but no contract: what they add to a shared list cannot be stated.

## Layout

- `src/csi_mode_scan.rs`: watches the byte stream for DEC private mode 2031.
- `src/osc_preparse.rs`: takes OSC 7, 9 and 777 out of the byte stream, as events.
- `src/event_proxy.rs`: the events that the terminal and the engine tell the host, and
  the listeners that hear them.
- `src/term_model.rs`: the terminal's state as plain values, and what each operation
  does to it.
- `src/term_bridge.rs`: the calls into `alacritty_terminal`. What is believed of them
  without proof stands here, in `src/event_proxy.rs` and in `src/text.rs`.
- `src/seek.rs`: the walk over the matches of a search.
- `src/config.rs`, `src/palette.rs`, `src/screen.rs`: configuration, colors, and the
  cells and lines that the host is shown.
- `src/frame.rs`: the engine's state, and what each kind of update shows of it.
- `src/engine.rs`: the engine.
- `src/laws.rs`: what holds of the engine across its operations.
- `src/view_frame.rs`: the types of the damage-driven view protocol.
- `app/`: the engine as a host calls it, with floating-point scroll positions.

Scroll positions are fractions of a cell. The library carries them as the bits of a
double and decides only whether they are zero, positive or below one; the arithmetic on
them is the host's.

Line numbers have 32 bits. Long input is handed to the terminal in pieces where a
selection needs it, and a selection is dropped where its own line numbers run out.
