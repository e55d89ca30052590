//! An admission policy that rejects a Pod when one of its label keys reads
//! the same forwards and backwards.

pub mod admission;
pub mod detector;
pub mod verdict;
