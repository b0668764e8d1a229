# nostos_cli

The verified core of `nostdb`, the NostDB command-line client.

`src/` holds the client's logic, each function with a contract proved by
Verus:

- `command`, `args`, `help`: the command line, option by option, and usage texts.
- `settings`: `.nostdb/settings.json`, the guards of `nostdb init` and the
  order in which `nostdb update` visits linked projects.
- `split`, `query`: the statement splitter and the checks a query batch passes
  before anything runs (read-only mode, CSV batches), and when a project's
  source is reconciled with its database.
- `value`, `render`, `result`: query values and their table, JSON, JSON-lines
  and CSV forms.
- `wire`: results that a server sends as JSON.
- `remote`, `admin`: credentials, remote failures, the snapshot download and
  upload streams (Base64 through the `base64` crate), the check of each
  administration reply and the table that reports it.
- `repl`: interactive sessions and explicit transactions.
- `diagnostics`, `tables`, `doctor`, `source_format`: project diagnostics,
  `nostdb doctor` and the administrative tables.

`app/` is the executable around it: argument vector, terminal, files, the
embedded engine and the server connection. It gathers facts (what a
directory holds, what the engine or the server answered), hands them to the
library as plain values, and performs what the library decided.
