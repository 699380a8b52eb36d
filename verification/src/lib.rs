//! Verified core of a cross-protocol storage load-generation tool.
//!
//! The crate holds the workload engine: the shared object-availability
//! queue with its selection policies, the backend contract and a verified
//! in-memory backend, the worker operation-selection and result-classification
//! logic, the statistics aggregation tiers with data-cap termination, and the
//! configuration parsers for human-readable sizes and weighted token lists.
//! Protocol clients (WebDAV, S3, local filesystem) perform their I/O outside
//! the library and call into it for every decision that can be stated and
//! proved.

pub mod fs;
pub mod queue;
pub mod s3;
pub mod stats;
pub mod textfmt;
pub mod utils;
pub mod webdav;
pub mod worker;
