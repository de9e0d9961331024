# git-redate

Interactively edit the author and committer dates of a range of git
commits, then rewrite history in place.

## Layout

- `src/` is the verified library (Verus): the timestamp arithmetic and
  the calendar it rests on (`calendar`, `datetime`), the edit model
  (`model`), the editor's state machine (`app`) and keymap (`input`), the
  line editor (`lineedit`), the command line's range normalization and
  configuration (`cli`, `config`), the linear commit walk (`repo`), the
  decisions of rewriting and signing (`rewrite`, `sign`), and the text
  the screen shows (`ui`). Each public function states its result in its
  contract; the laws that relate several functions are public proof
  functions next to them.
- `tests/` runs the library on concrete values.
- `app/` is the program around it: argument parsing (clap), reading and
  writing the repository (gitoxide), running `gpg`/`ssh-keygen`, and the
  terminal UI (ratatui).
