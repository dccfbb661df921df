//! Rule core of a five-in-a-row board game: a square grid of cells holding
//! at most one piece each, a precomputed neighbor table for the eight compass
//! directions, and a win detector that scans every possible five-cell line.

pub mod utils;
pub mod cross_point;
pub mod board;
pub mod rule_checker;
