//! Calendar aggregation and indexing for a year of daily prayer times.
//!
//! Per-month day rows, an event table and a weekly hadith table are merged
//! into one ordered year, partitioned into weeks, projected into day, week,
//! month and year documents, and sealed with a content digest.

pub mod calendar;
pub mod digest;
pub mod domain;
pub mod dtos;
pub mod generator;
pub mod input_dtos;
pub mod merge;
pub mod output_dtos;
pub mod params;
pub mod text;
pub mod week;
