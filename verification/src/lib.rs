//! Calendar-based version resolution: the format grammar, the date arithmetic
//! and the rules that pick the next version of a package.

pub mod calendar;
pub mod cli;
pub mod compare;
pub mod crates_io;
pub mod decimal;
pub mod format;
pub mod git;
pub mod json;
pub mod npmrc;
pub mod order;
pub mod registry;
pub mod resolve;
pub mod run;
pub mod scan;
pub mod target;
pub mod text;
pub mod toml;
pub mod values;
