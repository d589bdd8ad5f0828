# Dagger Explorer

A desktop file explorer whose core is verified with Verus.

- `src/` — the verified library: path handling, listing cache and order, selection and
  keyboard navigation, path-bar editing, tabs and history, the folder tree, clipboard
  payloads (URI list, GNOME and KDE formats) with their round-trip laws, copy/move planning, thumbnail
  scheduling, keybindings, themes and preferences. Every public function carries a
  contract; laws that relate several operations are public proof functions named `law_*`.
- `app/` — the program around it: command-line handling, directory listing and watching
  threads, the system clipboard (Wayland and X11), trash and deletion, `kioclient`
  transfers, thumbnail generation and its SQLite cache, preferences on disk.
- `tests/` — tests of the library on concrete values.
