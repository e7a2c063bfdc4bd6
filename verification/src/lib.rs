//! A document layout and PDF serialization engine.
//!
//! Given a list of structured records and print settings (page size,
//! orientation, margins, font size, view mode), the library lays out text
//! and tabular data across one or more pages and emits a PDF byte stream.
//! All lengths are integers in millipoints (1/1000 of a PostScript point),
//! so every layout computation is exact and verified.

pub mod backend;
pub mod content;
pub mod errors;
pub mod files;
pub mod forms;
pub mod layout;
pub mod model;
pub mod pdf;
pub mod samples;
pub mod units;
pub mod wrap;
