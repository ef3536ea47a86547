# corporate_nayose

Builds the companies and establishments tables of the Japanese corporate
registry (法人番号) from the raw registry CSVs, verified with Verus.

- `src/tables.rs`: the raw (all-text) and typed table models, column
  resolution tolerating a BOM on a header name, per-type normalisation
  (empty text to null, non-strict integer casts and `%Y-%m-%d` dates through
  polars), projection, input counts, row selection and the log line.
- `src/tables/rows.rs`: rows that carry a corporate number, and keep-first
  deduplication on it, with their laws.
- `src/tables/companies.rs`, `src/tables/establishments.rs`: the two column
  mappings and builds, with their statistics.
- `src/tables/cast.rs`: the polars calls, behind contracts.
- `app/`: the command line, CSV scanning and parquet writing with polars.
