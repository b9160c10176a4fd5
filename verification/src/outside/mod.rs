//! The calls into other crates, each behind one function whose contract says
//! what the rest of the library relies on.
pub mod archive;
pub mod clock;
pub mod csv_text;
pub mod header;
pub mod json_text;
pub mod std_text;
pub mod toml_text;
pub mod url_text;
