//! Measures and visualizes the timing breakdown of a single HTTP(S) request.
//!
//! The request itself is delegated to an external HTTP client process; this
//! library turns that process's raw timing report, the captured response
//! headers and the body location into a human-readable waterfall diagram.

pub mod errors;
pub mod executor;
pub mod headers;
pub mod printer;
pub mod response;
pub mod text;
pub mod timing;

use vstd::prelude::*;

verus! {

/// Width of one value slot in the waterfall diagram, in characters.
pub const FIELD_WIDTH: usize = 7;

} // verus!
