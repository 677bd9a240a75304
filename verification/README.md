# simai_parser

A parser for simai files, the text format of maimai charts, written in Verus.

A file is a list of header fields (`&title=`, `&artist=`, `&first=`,
`&wholebpm=`, `&des_N=`, `&lv_N=`, any other `&name=value`) and charts
(`&inote_N=` up to a closing `E`). Slides, holds, taps and the other events of a
chart body are read as well.

Layout:

- `src/scan.rs` – the character-level scanners, taken from `nom`, with what each
  does stated on the characters of its input.
- `src/grammar.rs` – the grammar, as specification functions.
- `src/parser.rs` – the parser; each function is proved to do what its
  specification function states.
- `src/progress.rs`, `src/laws.rs` – properties of the parser as a whole.
- `src/lib.rs`, `src/events.rs`, `src/errors.rs` – the types.
- `app/` – the same types with their numbers read as `f64`, and the error traits.

Numbers are kept as the decimal text the file holds; `app/` reads them as `f64`.
A chart is read in full (`parser::simai_map` gives it as read); in the file it
adds an empty `SimaiMap` under its number.
