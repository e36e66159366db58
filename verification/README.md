# afar

Line-mode terminal panes over local or remote shells, for egui apps built
on `egui-elegance`'s `MultiTerminal`.

- `src/` is the verified library:
  - `ansi` turns backend bytes into coloured lines: `vte` parses the byte
    stream, and the line assembler (per-line cap, first-non-default-colour
    rule, SGR colour buckets) is proved against its specification;
  - `backend` holds the status, events and messages of a session and the
    decisions of the session loop (`Session::step`), with the scripted
    `MockBackend` and the local/SSH configuration types;
  - `multi_terminal` decides how each backend event updates a pane;
  - `text` holds small string helpers (decimal rendering).
- `app/` is the plain Rust around it: the tokio runtime, the async session
  task, the channel handle, and the egui widgets.
- `tests/` exercises the library, including the whole byte-to-pane path
  driven synchronously.
