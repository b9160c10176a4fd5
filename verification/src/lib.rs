//! GTFS static feeds into D1: the logic of the importer, of the scheduled
//! worker and of the read-only HTTP API, with its contracts.
pub mod api;
pub mod importer;
pub mod number;
pub mod number_laws;
pub mod outside;
pub mod pieces;
pub mod pieces_laws;
pub mod scheduled;
pub mod sorting;
pub mod text;
