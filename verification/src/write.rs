//! Reading and writing datasets.
pub mod aggregate;
pub mod append;
pub mod columns;
pub mod delete;
pub mod index;
pub mod limits;
pub mod merge_insert;
pub mod metadata;
pub mod optimize;
pub mod pg_to_arrow;
pub mod row_batches;
pub mod spi_chunks;
pub mod storage;
pub mod vacuum;
