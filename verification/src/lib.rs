//! Progress-tracked archive extraction support.
//!
//! The core of a desktop backend that unpacks compressed archives while
//! publishing extraction progress to a queryable store keyed by archive
//! path. `progress` holds the store and the single file-transfer progress
//! pair; `rar` holds the decision logic of the header-by-header RAR walk.
//! The host shell performs the actual disk I/O and drives these components.

pub mod progress;
pub mod rar;
