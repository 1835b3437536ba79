# tasks

A modal command-line task manager with vim-like key bindings, verified with
Verus.

- `src/` is the verified library: tasks and lists (`task`), the application
  state and what each key binding does to it (`tasks_app`, `keys`), the
  `.tasks.md` file format (`serialisation`), and the one-line text field used
  for typing names and descriptions (`line_editor`).
- `app/` is the terminal program: it reads and writes `.tasks.md`, draws the
  current list and turns key presses into calls of the library.
- `tests/` holds the tests of the library.
