# window-list-overlay

A window list overlay for Hyprland: while Super is held, a panel lists the windows of the
current workspace with their icons and titles, the focused one highlighted.

- `src/` is the verified library (Verus): settings and per-monitor overrides (`config`),
  the window filters on Hyprland's answers (`hyprland`), the order of icon lookups and the
  choice among their results (`icons`), the evdev request numbers and key-bitmap tests
  (`keys`), the waybar theme parser and the stylesheet (`theme`), the overlay's decisions —
  placement, rows, change detection, the fill sequence and the title scroller
  (`overlay`) — and text helpers (`text`).
- `app/` is the program around it: `hyprctl` and file I/O, TOML/JSON decoding, evdev
  ioctls, and the GTK4 layer-shell window that carries out the library's decisions.
