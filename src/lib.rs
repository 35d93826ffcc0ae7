//! A small extract-transform-load library for a nutrition survey dataset:
//! the subset of a downloaded CSV, the typed records that are loaded into a
//! table, and the fixed reports read back from that table.

pub mod csv_io;
pub mod extract;
pub mod load;
pub mod query;
pub mod report;
pub mod schema;
pub mod text;
