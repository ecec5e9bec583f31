//! A verified core for a photo/media import pipeline.
//!
//! The library models and verifies the logic of the pipeline: scanning
//! candidates by extension, resolving a capture timestamp from an ordered
//! chain of metadata-read outcomes, filtering records against a time window,
//! deduplicating by file name and capture date, and planning idempotent
//! copies into a date-partitioned destination tree. The surrounding process
//! (directory walking, metadata readers, worker threads, file copies) lives
//! outside the library and hands it plain values.

pub mod args;
pub mod datetime;
pub mod extract;
pub mod format;
pub mod import;
pub mod parse;
pub mod pool;
pub mod records;
pub mod scan;

pub use args::get_named_args;
pub use args::get_input_time_range;
pub use datetime::Date;
pub use datetime::DateTime;
pub use extract::resolve_capture_time;
pub use import::plan_imports;
pub use pool::collect_records;
pub use pool::make_extraction_tasks;
pub use records::filter_images;
pub use records::MediaRecord;
pub use records::TimeWindow;
pub use scan::filter_candidates;
pub use scan::is_candidate;
