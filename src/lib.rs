//! A read-only browsing engine for SQLite files: one held connection, the
//! list of tables, and paginated full-table scans whose cells are coerced
//! into a transport-neutral value model.
pub mod value;
pub mod error;
pub mod query;
pub mod row;
pub mod sqlite;
pub mod db;
