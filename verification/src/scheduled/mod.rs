//! The scheduled worker: it imports the feeds of several operators into one
//! database, each into tables with a prefix of its own.
pub mod config;
pub mod dataset;
pub mod import;
pub mod import_laws;
pub mod logger;
pub mod processor;
pub mod processor_laws;
pub mod route;
pub mod schema;
