//! Building the companies and establishments tables of the Japanese
//! corporate registry (法人番号) from the raw registry CSVs.

pub mod greeting;
pub mod tables;
