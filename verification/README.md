# hrdf_parser

A parser for the Swiss HRDF timetable format (version 5.40.41), written in
Verus: each parser states in its contract what a file's lines give — the
resources, or the file, line and reason of the first line that does not read —
and Verus proves it.

## Layout

- `src/` — the verified library.
  - `scan.rs`, `layout.rs`, `text.rs`: scanners over the characters of a line
    (fixed-width fields, literals, runs, numbers, real numbers) with their
    specifications.
  - `parsing/`: one module per HRDF file (or group of files). Each has a spec
    function per row kind, the row readers, `parse_line` (what a line does to
    the state, nothing on an error) and `parse` (what the whole file gives).
    `parsing/lines.rs` holds what they share: blank lines are skipped, ids
    are handed out 1, 2, 3, ..., and the first failing line decides.
  - `models.rs`: the resources; `storage.rs`: the `rustc_hash` maps behind
    them; `calendar.rs`: dates and times, computed by `chrono`.
  - `data_storage.rs`, `hrdf.rs`: all the files of an archive, read in order.
- `app/` — loading an archive: download, unzip, read the files, cache.
- `tests/` — the tests.

Real numbers (coordinates) are held as the text that writes them; the
program turns them into `f64`.
