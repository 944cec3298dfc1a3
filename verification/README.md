# tape

An atomic dotfile switcher for ricing. A *tape* is a directory of
configuration entries (usually under `.config/`) with an optional
`tape.toml` manifest. `tape insert` backs up whatever stands in
`~/.config` for each entry and links the tape's entry in its place;
`tape eject` removes the links and moves the backups back.

## Layout

- `src/` — the verified library (Verus): the path model
  (`path.rs`), text helpers (`text.rs`), the manifest and what is read
  from it (`manifest.rs`), the state file format (`state.rs`), the
  insert and eject decisions (`insert.rs`, `eject.rs`), what `tape show`
  reports (`show.rs`), debug status lines (`debug.rs`) and shell-side
  decisions (`shell.rs`).
- `app/` — the command-line program: argument parsing, the file system,
  the environment, running shell commands, reading `tape.toml`, and
  coloured output. It hands the library plain values and acts on what
  comes back.
- `tests/` — tests of the library on concrete values.

The main properties proved are that a path's text reads back as the same
path, that the state file reads back the tape it records and ejecting
therefore finds the tape that was inserted, that ejecting restores each
target from the very backup inserting made (which never coincides with the
target), and that inserting is decided in full before anything is moved,
so that a taken backup slot refuses the whole insert, and that an insert
stopped part way is undone link by link. Ejecting removes only the tape's
own links and never moves a backup over anything that stands in its way.
