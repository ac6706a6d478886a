//! Verified core of a segmented-download engine.
//!
//! Given a resource of known length, the library plans contiguous byte
//! ranges, classifies HTTP responses, resolves the destination file name,
//! drives the buffered copy of each segment, and aggregates progress
//! events.  All network and file traffic stays outside; the functions here
//! work on plain values and carry proofs of the engine's invariants.

use vstd::prelude::*;

pub mod copy;
pub mod decimal;
pub mod download;
pub mod errors;
pub mod filename;
pub mod reporter;
pub mod response;
pub mod segment;

verus! {

/// Size of the intermediate buffer used when copying a response body, in bytes.
pub const DEFAULT_BUFF_SIZE: usize = 1 * 1024 * 1024;

} // verus!
