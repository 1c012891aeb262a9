# rein

A journal of LLM-assisted tasks. Each task is one Markdown document with a
checklist, kept in a store outside the repository. Commands change a document one
item at a time, bind tasks to worktrees, publish them as issues and pull requests,
and launch agents on them; a dashboard spans every project.

- `src/` is the library: documents, stores, synchronization, the commands, and the
  dashboard's state. Everything in it is proved against its contracts. A command
  reads plain values and returns the steps that it wants done.
- `app/` is the program: it reads files, calls git and `gh`, launches agents, draws
  on the terminal, and carries the steps out.
- `tests/` runs the library, the commands against a disk, a repository and a `gh` in
  memory.

The modules named `…_laws` state what holds across functions: a document reads
back, ids are stable, a push overwrites no remote edit, pulling the inbox again
imports nothing, a refused command does nothing.
