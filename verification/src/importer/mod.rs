//! The importer: feeds are downloaded, their CSV files are cut into batches of
//! JSON rows, and the batches are written to D1 within several budgets.
pub mod batch;
pub mod budget;
pub mod catalog;
pub mod client;
pub mod commit;
pub mod config;
pub mod config_laws;
pub mod d1;
pub mod download;
pub mod extract;
pub mod extract_laws;
pub mod fault;
pub mod file_task;
pub mod ledger;
pub mod provider;
pub mod record;
pub mod rotation;
pub mod rows_laws;
pub mod run_laws;
pub mod schema;
pub mod schema_laws;
pub mod select;
pub mod select_laws;
pub mod sql;
pub mod sql_laws;
pub mod storage;
pub mod upload;
pub mod waves;
