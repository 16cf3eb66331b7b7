# gest

Project tracking from the command line and in the browser: tasks, iterations
and artifacts, kept in a SQLite database with a mirror of files under `.gest/`.

`src/` is the library: what the program decides and computes, with contracts
that Verus proves. It reads no files and opens no database. A function that
needs an answer from outside names what it asks for, and a second one takes the
answer.

- `cli`: the command line, which subcommand it leads to, what is done before
  and after the subcommand runs, and the exit code and message of each error.
- `config`: the settings that the store is opened with.
- `store`: where the database is opened, how a connection is prepared, when
  files are imported and exported, and the errors of the store.
- `store::repo::project`: what is asked of the tables to make, find, archive
  and delete a project. `tables` models the tables, `laws` says what holds of
  the changes.
- `web`: the Mermaid graphs of the dashboard: loading what they are drawn from
  (`load`), the text of a graph (`label`, `mermaid`), the phases of iterations
  (`phases`) and the pages (`pages`). `laws` says what holds of every graph.
- `text`, `time`, `seqs`, `model`, `outside`: what the others rest on.

`app/` carries the library's decisions out: libsql, files, axum handlers and
the terminal. The rest of the program stands behind the traits of `app/host.rs`.
