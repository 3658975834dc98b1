# sigil

Gradient ASCII banners for command-line tools: text is folded to renderable
ASCII, laid out with a FIGlet font, framed, and painted with ANSI color
escapes (or written as SVG).

The library under `src/` is verified with Verus:

- `strs`, `text`: character-level helpers and input sanitizing.
- `color`: hex parsing and formatting, the 256-color palette, escapes.
- `render`: layout, compositing with padding and frames, painting, SVG.
- `fonts`, `standard_flf`: fonts (their `.flf` text and parse), the
  bundled font table, `.flf` trimming and the checks the parser needs.
- `gradient`, `themes`, `config`: presets, built-in themes, config merging.
- `animate`: frame text and the frame schedule of the reveal animations.
- `rng`, `mark`: the SplitMix64 generator and the generative mark.
- `export`: the Markdown and JSON output formats.
- `cli`: the command-line decisions (text source, settings precedence,
  gradient stops, color mode, framing).

`app/` is the `sigil` command around it: argument parsing, reading config
and font files, Oklab gradient sampling (floating point), terminal and file
output. `tests/` exercises the library on concrete inputs.
