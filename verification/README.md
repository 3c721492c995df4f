# ana-convert

Recovers full-colour stereo from anaglyph 3D: each eye's brightness is taken from
the channels that carried it, and colour is painted back on from a heavily blurred
reference. Side-by-side, top-and-bottom and two-file sources are taken apart instead,
and the result is written as a stacked pair, two files, one eye or an anaglyph.

- `src/` is the library, verified with Verus. Frames are generic in their samples:
  the library decides which sample goes where, in which order the stages run, what is
  decoded, refused, reported and written, and what the window offers. It is handed
  the arithmetic of single samples, and holds settings that are floats by their bit
  patterns.
- `app/` is the program around it: the floating-point formulas, ffmpeg as a child
  process, presets as JSON, the command line and the window.
- `tests/` run the library with the same formulas in `f32`.

The stages of a conversion are in `pipeline`, on top of `transfer`, `extract`, `leak`,
`blur`, `restore`, `grade`, `packed` and `compose`; a whole run is planned and stepped
by `render`; `repeat` holds two conversions against each other; `session` is the state
of the window and `panels` what it shows of it. Each module states its laws as public
proof functions whose names begin with `law_`.
