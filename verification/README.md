# docgen

A command-line tool that finds Python and TypeScript files with undocumented
functions and classes, asks a vLLM server to write the missing docstrings, and
applies the new texts through a short-lived git branch that is merged back.

The crate is written in Verus.

- `src/` is the verified library: the docstring detection over tree-sitter
  syntax trees, the TSX container candidates, the settings and server URLs,
  the prompt, the choice and ordering of files, the reading of the server's
  replies, and every decision of the command-line workflow (what is printed,
  when a run stops and with which exit code). Calls into tree-sitter,
  serde_json and std's `Debug` go through a few trusted functions whose
  contracts name their results.
- `app/` is the program around it: the command line, the `.env` and
  `docgen.toml` files, the HTTP requests, the concurrent requests, and git.
- `tests/` runs the library on concrete inputs.

Nothing here needs another language, so there is no `extras/` folder.
