# s3-unspool

Streaming ZIP transfer between local storage and Amazon S3, with its decisions
proved in Verus.

The library zips local directories and S3 prefixes into local or S3 ZIP files,
and unzips local or S3 ZIP files into local directories or S3 prefixes. Source
objects are read in ranges, destinations are listed once, unchanged files are
skipped with an embedded MD5 catalog, and everything else is written with
conditional requests.

## Layout

- `src/` holds what is decided and computed: URIs and keys (`s3_uri`), ZIP paths
  (`zip_path`), selections (`selection`), the manifest of a central directory
  (`zip_manifest`, `local_zip`), source ranges and the block window
  (`source_plan`, `block_store`, `block_reader`, `window_laws`, `range_reader`,
  `source_fetch`), content checks (`entry_reader`, `digest`), comparisons and
  conditional writes (`classify`, `put`, `sync_run`, `local_sync`, `transfer`),
  dry runs (`dry_run`, `dry_run_sync`, `dry_run_laws`), local paths (`local_path`,
  `local_destination`, `local_round_trip`, `path_probe`), zipping
  (`directory_walk`, `upload_entries`, `archive_writer`, `multipart`), options
  and reports.
- `tests/` runs the library on concrete values.
- `app/` is a Lambda function and the transfers themselves: requests, files and
  tasks around the library.

What holds of the library as a whole stands in proof functions whose names start
with `law_`. What is taken on trust of other crates and of the standard library
stands beside `external_body` and `assume_specification`, each with a comment
that says what is claimed.
