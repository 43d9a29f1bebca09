//! Fetches a time series of satellite imagery snapshots for a past time
//! window: parses compact duration expressions, resolves an aligned
//! `(start, end, stride)` window, enumerates the snapshot timestamps,
//! plans the output directory, and drives one bounded-concurrency fetch
//! per timestamp while isolating per-item failures.

pub mod time;
pub mod duration;
pub mod goesimages;
pub mod window;
pub mod sequence;
pub mod digits;
pub mod dirs;
pub mod fetch;
