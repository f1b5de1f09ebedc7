# rawtree_cli

The verified core of `rtree`, the command-line client of the RawTree analytics
platform, written in Verus.

- `src/` is the library, checked by Verus: how settings are resolved from the
  command line, the environment and the config file; the API paths of every
  command; choosing the organization and database at login; API key checks;
  the accounting of URL ingestion streams and the batching of JSONL files;
  relative time windows and the query string of the log search; the columns
  and the box rendering of query results; and the texts the commands print.
- `app/` is the program around it: argument parsing, HTTP requests, the
  config file, terminal prompts, progress bars, threads, and the figures that
  are computed in floating point.
- `tests/` exercises the library on concrete values.
