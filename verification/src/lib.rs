//! Core of a terminal network-bandwidth monitor.
//!
//! The library turns cumulative per-interface byte counters into
//! instantaneous throughput, keeps a bounded history window and running
//! statistics of the observed rates, resolves user-supplied interface
//! patterns against the set of available interfaces, and rasterizes a
//! rate series into an ASCII bar chart with numeric axis labels.
//!
//! All quantities are integers: rates are bytes per second, timestamps
//! are milliseconds. Reading the counters, the terminal handling and the
//! screen loop live outside the library; they hand plain values in and
//! take plain values (or rendered rows) back.

pub mod chart;
pub mod format;
pub mod history;
pub mod monitor;
pub mod parse;
pub mod resolver;
pub mod sampler;
pub mod stats;
pub mod text;
