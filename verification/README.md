# GTFS worker

Imports GTFS static feeds into Cloudflare D1 databases and serves them.

- `src/` is the library. Every function in it is verified by Verus.
  - `importer`: the importer that runs on a schedule outside the workers. It
    decides what of a feed is left to import, cuts CSV files into batches of JSON
    rows, keeps the row and write budgets, and records how far each file got.
  - `scheduled`: a worker that imports the feeds of several operators into one
    database.
  - `api`: a worker that answers requests about the data.
  - `outside`: the calls into other crates. Their contracts are trusted.
  - `text`, `pieces`, `number`, `sorting`: what the others share.
- `app/` is the program around it: files, HTTP, D1 and the entry points of the
  workers. It performs what the library decides and hands back what happened.
- `tests/` runs the library on examples.

Work that alternates between decisions and I/O is written as tasks: a task takes
an event and answers with the next action, and its contract says which action
follows which event.
