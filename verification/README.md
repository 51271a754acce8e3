# word_book

The verified library behind an offline vocabulary trainer (word search over a
SQLite full-text index, definitions, and spaced-repetition flashcards).

- `src/` — verified with Verus:
  - `search`: what a word search asks of the full-text index (blank query →
    most frequent words; otherwise the query as one quoted phrase with a prefix
    match), and the proof that the phrase reads back as the query.
  - `rows`: gathering query rows (all values or the first error), the first
    row, and keying rows by word id.
  - `progress`: the plain bookkeeping of a word's learning state and which
    weighting formula applies to it.
  - `deck`: how a deck splits into review and new cards and what each query
    fetches or leaves out.
  - `sampling`: the draw without replacement (no card twice, never more than
    planned).
  - `answer`: the score check.
  - `words`: the word and definition records.
- `app/` — ordinary Rust: SQLite access, the configuration file, the
  floating-point score averages and weights, the weighted random draw, and the
  command handlers.
- `tests/` — tests of the library.
