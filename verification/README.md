# elegy

Music-theory helpers, verified with Verus.

- `src/notes.rs`: raising and lowering a note by a half step, and its pitch class.
- `src/intervals.rs`: letters a number of scale steps apart, half steps between
  two notes, spelling a note a given distance above another, naming intervals.
- `src/chords.rs`: building major, minor, diminished and augmented triads, and
  recognizing the chords that three notes form.
- `src/text.rs`: splitting at commas, joining with commas, and small string helpers.
- `src/lib.rs`: the two string-in, string-out entry points.
- `app/lib.rs`: the WebAssembly bindings for those entry points.

Notes are a natural letter `A`–`G` followed by sharps (`#`) and flats (`b`).
