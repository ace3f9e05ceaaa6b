# pglance

Lance datasets in PostgreSQL: foreign tables over them, and functions that write, index and maintain
them.

- `src/` is the library: the rules of the extension, written in Verus. Every function has a contract
  that Verus proves; what holds across functions stands beside them as public proof functions.
- `tests/` runs the library on concrete values.
- `app/` is the extension around the library: arrays and schemas of Arrow, the remote namespace, the
  Lance SDK (feature `lance`) and PostgreSQL (feature `pg17`).

## Modules

| Module | What it holds |
|---|---|
| `text`, `order`, `numbers` | texts as sequences of characters, their order, sorted tables, stable sorting, decimal numbers |
| `json`, `calendar` | lists of texts as JSON (`serde_json`), days and moments as text (`chrono`) |
| `settings`, `build_info` | settings, option names, the packages of a lock file |
| `fdw::namespace_walk` | listing a namespace tree page by page |
| `fdw::table_mapping` | local names of remote tables, and which of them collide |
| `fdw::attach_namespace` | attaching remote tables as foreign tables |
| `fdw::column_types` | type names in one spelling, drift between column lists |
| `fdw::local_tables` | the foreign tables of a server by remote table |
| `fdw::sync_namespace` | bringing foreign tables in step with a namespace |
| `fdw::scan` | the columns, rows and errors of a foreign scan, and how it is explained |
| `write::columns`, `write::aggregate` | column types and values, the smallest and the largest value of a column |
| `write::pg_to_arrow`, `write::row_batches`, `write::spi_chunks` | rows of a query as columns, in batches and chunks |
| `write::append`, `write::merge_insert`, `write::delete` | writing, merging and deleting rows |
| `write::storage` | the options by which storage is reached |
| `write::limits`, `write::optimize`, `write::vacuum`, `write::index`, `write::metadata` | maintenance, indexes, and what a dataset tells of itself |

## What is trusted

`json` and `calendar` call `serde_json` and `chrono`; `text` and `fdw::attach_namespace` use three
functions of the standard library that Verus has no contract for. Each of these calls stands in one
small function whose doc comment says what is claimed of it.
