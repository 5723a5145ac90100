//! Column lookup, value extraction, category counting and order-statistic
//! positions for exploring a CSV dataset.
pub mod aggregate;
pub mod column;
pub mod commands;
pub mod error;
pub mod extract;
pub mod stats;
pub mod table;
