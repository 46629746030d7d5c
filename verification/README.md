# keyboard_usage_tracker

A keyboard, mouse and touchpad usage tracker with a local web dashboard.

- `src/` is the verified library (Verus): the input events, the
  aggregation of events into the database buffers, touchpad slot
  tracking and HID report decoding, keyboard-shortcut statistics, the
  rotating dashboard tokens and the routing of dashboard requests, the
  key names and the texts the tracker composes. Every public function
  states its result in its contract, except what depends on the clock
  or on the machine's byte order, of which only what holds of every
  outcome is stated; the laws that tie functions
  together are public proof functions.
- `tests/` runs the library on concrete values.
- `app/` is the program around it: evdev and X11 capture, SQLite, the
  HTTP and WebSocket servers, and the process plumbing.
