//! A query language for screening, ranking and charting instruments.
//!
//! - `lexer`, `grammar`, `parser`: script text to syntax tree (`ast`), with
//!   the executable parser proved equal to the grammar's spec functions.
//! - `commands`: what FILTER, SORT, PLOT and the initializing `items` ask
//!   for, and the evaluation's date window; typed configuration errors.
//! - `tracking`: the tracked instruments, ordered and free of duplicates.
//! - `cache`: derived series by canonical id, each computed once.
//! - `ids`: canonical ids of function and expression series, chart panels.
//! - `indicators`: indicator dispatch, targets, BBWP percentile counts.
//! - `ranking`: stable, direction-aware ordering and limits.
//! - `series`: date alignment of two series.
//! - `charts`: the charts the response carries per instrument.
//! - `dates`: calendar dates as day numbers.
//! - `universe`: the instrument symbols the data provider offers.
pub mod ast;
pub mod cache;
pub mod charts;
pub mod commands;
pub mod dates;
pub mod grammar;
pub mod ids;
pub mod indicators;
pub mod lexer;
pub mod parser;
pub mod ranking;
pub mod series;
pub mod tracking;
pub mod universe;
