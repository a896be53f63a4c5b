# argon

The verified core of a viewport streaming daemon: it captures a window's video,
sends it to a browser viewer as raw half-size RGBA frames over a websocket, and
injects the viewer's keyboard and pointer input into the window through X11.

- `src/` — the library, verified with Verus:
  - `keys` — browser `KeyboardEvent.code` names and their X11 keysyms;
  - `keymap` — the keysym-to-keycode map built from the server's keyboard mapping;
  - `frame` — frame header and pixel encoding, buffer layout and source choice;
  - `inject` — planning of the synthetic X11 events for each input event, and
    their wire form;
  - `session` — the websocket token check, the frame and input session steps and
    the plugin's long poll;
  - `server`, `cli` — listen address, ready line, display names and settings.
- `app/` — the program around it: command line, PipeWire/portal capture, the X11
  connection, the actix-web server and the probe.
- `tests/` — tests of the library.
