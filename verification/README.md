# mdpdf

Converts GitHub-flavoured Markdown to PDF through Typst. The conversion logic
is a library verified with Verus; the command-line program around it reads
files, parses TOML, loads fonts and runs the Typst compiler.

## Layout

- `src/` — the verified library.
  - `text.rs`: Typst escaping (markup and string), with proofs that escaped
    text is inert and reads back as the original; trimming, searching,
    joining, replacing and decimal formatting of text.
  - `paths.rs`: the few `std::path` operations the library relies on.
  - `assets.rs`: the image registry (distinct generated virtual paths, one
    entry per path, as std compares paths) and the resolution of Markdown image destinations.
  - `events.rs`: the Markdown event stream, parsed by pulldown-cmark.
  - `convert.rs`: the event-by-event Markdown to Typst converter, specified
    as a state machine, with its laws (inert body text, alt text kept in the
    image, only existing files registered, remote images refused, broken
    images fall back to their alt text, code fences outlast their content).
  - `compile.rs`: header/footer tokens, the band grid and the Typst preamble.
  - `config.rs`: per-field layering of configuration files and where they
    are looked for.
  - `cli.rs`: the decisions of the program (which setting wins, output
    paths, page sizes, rendering of bands).
  - `calendar.rs`: civil dates of day counts since the Unix epoch.
- `tests/` — tests of the library.
- `app/` — the program: command-line parsing, file and environment access,
  TOML parsing, fonts, and Typst compilation and PDF export.

Fonts are read at run time from `$MDPDF_FONT_DIR`, or from `fonts/` beside
the executable.
