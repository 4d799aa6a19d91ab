//! Triage of compiler-crash reports: extract a reproducer from each report,
//! classify what every toolchain made of it, and lay out the comparison.

pub mod config;
pub mod driver;
pub mod link;
pub mod outcome;
pub mod paging;
pub mod render;
pub mod report;
pub mod runner;
pub mod snippet;
pub mod text;
