# rusty-pi

The core of a terminal coding agent, written in Verus: the logic of its
tools (reading windows of files, exact-text edits with fuzzy matching,
output truncation, shell results), prompt templates and skills, system
prompt assembly, slash commands, the session controller, the print
frontend and the terminal transcript. Each public function states its
result in `ensures`, and laws of the library (line-ending and fuzzy
normalization, truncation limits, round trips) are proved as lemmas.

- `src/` — the verified library; `src/text.rs` holds the text model
  (characters, UTF-8 lengths, searching, splitting) the other modules
  are specified over.
- `tests/` — tests of the library on concrete values.
- `app/` — the program around it: argument handling, files, processes
  and the terminal.
