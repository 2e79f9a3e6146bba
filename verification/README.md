# id3org

A small command line program that organises mp3 files: every file under an
`unsorted` folder is copied to `sorted/<artist>/<album>/<title>.mp3`, with the
names taken from its ID3 tags (`--skipalbums` leaves out the album folder).

- `src/` is the verified library (Verus): the naming rules (`names`), the text
  operations they use (`text`), the calls into the `regex` crate (`matching`),
  the destination paths and the copy decision (`paths`) and the per-run counts
  (`run`).
- `app/main.rs` is the program: argument parsing, walking the folder, reading
  tags, creating folders and copying files.
- `tests/` runs the library on concrete values.
