//! The HTTP API: the progress of imports, rows of tables, and read-only queries.
pub mod data;
pub mod database;
pub mod query;
pub mod query_laws;
pub mod route;
pub mod route_laws;
pub mod sql;
pub mod sql_laws;
pub mod status;
