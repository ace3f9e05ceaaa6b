//! The foreign data wrapper: attaching namespaces and scanning foreign tables.
pub mod attach_namespace;
pub mod column_types;
pub mod local_tables;
pub mod namespace_walk;
pub mod scan;
pub mod sync_namespace;
pub mod table_mapping;
