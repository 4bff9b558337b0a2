//! Selects one region's row from each daily report table, orders the rows by
//! confirmed-case count and prepares the points of a single-statistic chart.

pub mod config;
pub mod number;
pub mod report;
pub mod series;
pub mod table;
