# TRuSt-80

A TRS-80 Model I emulator. `src/` is the `trust_80` library, verified with
Verus: the bus (RAM/ROM over `zilog_z80`'s `FlatBus`, the cassette port),
the cassette reader, the keyboard matrix and the host keyboard adapter, the
monitor's command language and its commands, the pacing of emulated time,
the video renderer and its incremental redraw, the configuration file's
section rewrite, the zoom levels and overlay panels, the virtual
keyboard's layout and SHIFT latch, and the frontend's window and
function-key decisions. `app/` is the desktop frontend (SDL2
windows and events, the wgpu/egui renderer, file I/O, the Z80 itself).

Layout of `src/`:

- `text.rs`: character helpers, decimal and hexadecimal formatting.
- `hexconversion.rs`: `0x`-prefixed hexadecimal arguments.
- `monitor.rs`: command lines into commands.
- `console.rs`: the terminal console's lines.
- `cassette.rs`: `.cas` images played back as pulses.
- `bus.rs`: the address space and the cassette port.
- `keys.rs`, `keyboard.rs`: key codes and the keyboard matrix.
- `host_keyboard.rs`: host key events into presses and releases.
- `machine.rs`: breakpoints, run state, monitor commands (console window
  and terminal dialects), pacing.
- `video.rs`: VRAM into RGB24, and the incrementally redrawn screen.
- `config.rs`: configuration sections and the in-place section rewrite.
- `display.rs`: zoom levels and panel visibility.
- `keyboard_panel.rs`: the virtual keyboard's zones and SHIFT latch.
- `frontend.rs`: what each window event and function key does, which
  events reach the keyboard, and the frame-rate governor.

The breakpoints are a `HashSet<u16>`, listed in the order the set hands
them out. The held keys of `keyboard.rs` are a `Vec<Keycode>` kept free of
duplicates: vstd's `HashSet` specification holds only for key types that
obey its key model, which vstd grants to integers and which for an enum of
this crate could only be assumed.
