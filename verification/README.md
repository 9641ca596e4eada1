# oops-libs

The host-side helpers every OOPS tool shares, as a Verus library with its contracts proved:

- `stamp` and `calendar`: the build stamp (`Stamp`, its one-line form, exactness), the short
  form of a supplied commit, the ref a `HEAD` file names, and seconds since the epoch as a
  UTC date, proved against a direct definition of the Gregorian calendar.
- `paths`: resolution of the collection's data and cache roots from a `Process` value:
  portable mode, explicit roots, the platform and home layouts, and the nowhere-to-write
  policy, with the precedence rules stated as laws.
- `log`: the logging configuration and the filter used when no level variable is set.
- `markdown`: the walk from `pulldown-cmark`'s event stream to a flat list of blocks.
- `docs`: the page registry check, link resolution by file stem, and the reader window's state.
- `text`: the character-level helpers the rest is built on.

`app/` holds what touches the process, the disk, the terminal or the screen: the build
script's half of the stamp, reading the process, turning `tracing` on, and the egui window.
