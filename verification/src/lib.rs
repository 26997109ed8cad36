//! Core of a corpus annotator: it turns per-document annotation records into
//! partitioned columnar batches, splits archived response payloads into
//! headers and body, and schedules per-file work under a concurrency budget.

pub mod batch;
pub mod cli;
pub mod document;
pub mod errors;
pub mod partition;
pub mod pipeline;
pub mod reader;
pub mod sched;
pub mod strings;
