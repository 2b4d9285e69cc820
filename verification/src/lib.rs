//! Verified core of a database client: SQL script splitting, connection
//! session bookkeeping, filter and EXPLAIN builders, update checks and the
//! data model shared by the application.
pub mod text;
pub mod sql_split;
pub mod models;
pub mod streaming_parser;
pub mod settings;
pub mod db_types;
pub mod sessions;
pub mod state;
pub mod update;
pub mod filter;
pub mod explain;
pub mod execution;
pub mod form;
pub mod llm;
pub mod cells;
pub mod editor;
pub mod postgres;
pub mod home;
