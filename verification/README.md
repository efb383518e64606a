# secinfra

A verified library for SEC filings. Everything under `src/` is checked by Verus against
the contracts that stand with it.

- `archive`, `submissions`, `json`, `text`, `double`: the submissions archive, whose
  entries they are, and where in the JSON the filings stand.
- `construct_submissions_data`: the CSV export, one line per filing.
- `metadata_columns`, `columns`, `metadata_batch`, `construct_submissions_metadata`,
  `metadata_archive`: the columnar export in Arrow batches.
- `xml`, `rss`, `feed_format`, `common`: the feed of current filings, and how it writes one.
- `accessions`, `monitor`: which filings are new, and when the monitor polls, validates
  and rests.
- `compression_util`: compression of bytes in memory.

Proof functions whose names begin with `law_` state what holds of the library as a whole.
Functions marked `external_body` call other crates; their doc comments say what is
believed of the call.

`app/` holds the network, the file system and the clock around the library. `tests/` runs
the library on concrete values.
