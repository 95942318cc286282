# woomer

A Wayland screen-zoom tool: it takes a screenshot of one output and lets the
user zoom into it, pan, point with a spotlight and draw on it.

- `src/` is the verified core: registry and output bookkeeping, the course of a
  screencopy capture, pixel conversion and orientation, the choice of the
  output, the command line, and what input does in each frame.
- `app/` is the program around it: the Wayland connection, Hyprland queries and
  the raylib window.
- `tests/` exercises the core.
