# tiki_ingest

The verified core of a pipeline that reads CSV objects from S3, cuts them into
header-prefixed batches, writes each batch as a Parquet file back to S3 and
announces it on an SQS queue.

- `src/` (Verus): the configuration and its environment rules (`config`), the
  batching state machine and its laws (`batch`), object keys, `s3://`
  locations and upload metadata (`upload`, `file_metadata`), text helpers
  (`text`), the all-or-nothing rule for a chunk's parsed rows (`records`),
  and the plain records (`formats`, `schema`).
- `tests/`: tests of the library on concrete values.
- `app/`: the AWS side (Lambda handler, S3/SQS clients, decompression, CSV and
  Parquet encoding, serde forms), which drives the library.
