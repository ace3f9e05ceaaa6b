//! Lance datasets as PostgreSQL foreign tables: the rules of the extension.
pub mod build_info;
pub mod calendar;
pub mod fdw;
pub mod json;
pub mod numbers;
pub mod order;
pub mod settings;
pub mod text;
pub mod write;
