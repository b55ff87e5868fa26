# zen

The editing logic of a Markdown-first editor, written in Verus: each
function states what it does in `requires`/`ensures` contracts that Verus
proves.

- `src/` — the verified library. Text helpers (`text`), languages and their
  scopes (`language`), what a newline continues (`newline`), typing and
  backspace around bracket pairs (`autoclose`), Tab and outdent
  (`tab`, `line_edits`), joining lines (`join`), rainbow brackets
  (`bracket_colors`), hovered URLs (`hover`), Markdown file detection
  (`markdown_path`), authorship persistence (`authorship`), the user cache
  (`user`), the change list and selection history (`change_list`,
  `selection_history`), folding (`folding`), selecting with the mouse and
  columnar selection (`drag`, `click`), the key context (`key_context`),
  highlighted rows (`row_highlights`), pending input and input-method
  ranges (`pending_input`, `ime`), copying (`copy`, `highlight_json`),
  relative line numbers (`line_numbers`), wrapping selections in tags
  (`wrap_tag`), and smaller pieces of editor state.
- `tests/` — tests of the library on concrete values.
- `app/` — the I/O and serialization around the library: authorship files
  on disk, language identities, the JSON of highlighted text, and the serde
  forms of settings and action parameters.

The library calls `regex` (ordered-list markers), `linkify` (URLs), `url`
(hosting-provider URLs) and std's `Path::file_name` through a few trusted
functions, each documented where it is declared.
