# kitpdf

The logic of a terminal document viewer that draws pages with the Kitty graphics protocol,
verified with Verus.

## Layout

- `src/kitty/`: the protocol. Requests and their bytes (`action`, `image`, `medium`, `format`,
  `display`, `delete`, `base64`), responses (`reader`, `response`, `error`), tmux (`tmux`,
  `placeholder`), what is sent and shown when (`run`, `show`), pixels (`pixels`), and what a
  terminal reads out of what was sent (`transfer`).
- `src/viewer/`: the viewer. Keys and clicks (`input`, `handle`, `answer`), commands
  (`command`), when and how the screen is drawn (`event_loop`, `surface`, `draw`), how a session
  starts (`startup`), and what holds of every reaction (`laws`).
- `src/cli.rs`, `src/document.rs`, `src/export.rs`, `src/path.rs`: the command line, documents,
  exported pages and their names.
- `src/text.rs`: text as sequences of characters.
- `app/`: the program around the library: terminal, files, processes and shared memory. The
  document library, the page model and the text screens are behind the traits of `app/backend.rs`.
- `tests/`: tests of the library.

## Conventions

A type that holds text is generic in it: it holds `String` at run time and `Seq<char>` in
contracts, and its view leads from the one to the other. What is written is built by functions
that append to a buffer; their contracts say which bytes are appended. Where a reaction depends on
something outside the library, a function returns what is to be done, and another goes on with
what came of it.
