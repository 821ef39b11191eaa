# gitko

A terminal front end for git, as a Verus library and a small program.

- `src/` is the verified library. `git` says which git commands gitko runs
  and how it reads their output (status codes, paths, lines); `text` cuts
  program output into lines; `render` models the styled lines and the
  scrolling windows; `gitko/` holds the main, diff, commit diff and output
  windows: what they show and what their keys do.
- Running git and reading files is not done by the library: the program
  hands in the functions that do it, each wrapped in a `calls::Recorded`,
  which keeps (as ghost state) the list of calls made through it with their
  answers. The contracts state that list exactly: which git commands run,
  how often and in what order, and what is made of each answer.
- `app/` is the program: it runs git, reads files, draws the windows with
  ncurses and hands them the keys.
- `tests/` runs the library with fake runners.
