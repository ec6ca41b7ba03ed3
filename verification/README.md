# catomic

A terminal text editor's core, written in Verus: the editing state, key
routing, buffers, prompts, indentation, autocomplete, external commands and
hooks, linting, model-request workflows and the external-change diff, each
with contracts that Verus proves.

- `src/` is the verified library. Every public function states in `ensures`
  what it returns or changes; laws that span several calls (switching buffers
  back and forth, a full turn of the buffer ring, undo after an edit, key
  routing after startup) are public proof functions.
- `tests/` exercises the library on concrete values.
- `app/` is the terminal program around it: reading and writing files,
  running shell commands, drawing frames and reading keys with crossterm.

Unicode grapheme segmentation comes from `unicode-segmentation`, called
through one trusted wrapper whose contract names its result.
