//! Per-node metrics agent: the text scanning and defaulting rules behind a
//! host's resource snapshot, with machine-checked contracts.
//!
//! The agent reads three kernel-exposed sources (a load-average line, a
//! memory-information table, a directory of GPU devices) and a configured
//! node name. This library decides which piece of each source is reported
//! and what stands in for a source that is missing.

pub mod agent;
pub mod chars;
pub mod fields;
pub mod loadavg;
pub mod meminfo;
