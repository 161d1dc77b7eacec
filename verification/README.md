# scatto

A popup for X11 that lists the desktops and the apps on each of them, driven by
keys or by the mouse. This crate is the part of it that decides things, written
in Rust and verified with Verus.

`src/` is the library. Everything in it is proved against its contract.

- `config`, `settings`: defaults, colours, the keys of the file, where the file
  lives, and what holds of them
- `property`, `ewmh`, `probe`: properties of windows, what the window manager
  publishes, and the list of windows
- `wm`, `action`: requests to the window manager, and the actions without a popup
- `layout`, `rows`: the rows of the popup, their hints, and what holds of them
- `state`, `keymap`, `keys`, `session`: the open popup, and what keys and mouse do
- `cursor`, `behaviour`, `mouse`: what holds of the cursor, and what keys and
  mouse promise
- `popup`: where the window opens and how it gets hold of the keyboard
- `render`, `place`, `icon`: what is painted where, and the icons
- `text`, `x11`: the few things taken from std and x11rb on trust

Public functions named `law_…` are proofs: each states something that holds for
all inputs, such as that a hint key does what Enter does on its row.

There are no floating-point numbers in the library: lengths are in thousandths
of a pixel and opacities in millionths.

`app/` is the program around it: it talks to the X server, reads the file and
paints with cairo and pango. `tests/` runs the library on examples.
