//! Day-ahead settlement point prices published by ERCOT: which report is
//! current, where it is found, what its table holds and how the prices are
//! written out as CSV.
//!
//! The library reads no clock, fetches no page and writes no file. It is
//! handed the moment and the page, and hands back the address and the text.

pub mod calendar;
pub mod digits;
pub mod export;
pub mod number;
pub mod price;
pub mod report;
pub mod table;

pub use export::export_csv;
pub use report::get_ercot_url;
pub use table::{parse_number, parse_table};
