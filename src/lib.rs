//! Typed metric values with a fixed on-wire encoding, and metric descriptors
//! that mirror their current value into a backing byte region read by an
//! outside monitoring agent.
//!
//! `codec` gives each value type its type code and encoding, `view` the byte
//! region that values are written into, and `metric` the descriptor and its
//! type-erased interface.

use vstd::prelude::*;

pub mod codec;
pub mod view;
pub mod metric;

verus! {

/// Names must be strictly shorter than this many bytes.
pub const METRIC_NAME_MAX_LEN: usize = 64;

/// Text blocks (help strings, text values) must be strictly shorter than this many bytes.
pub const STRING_BLOCK_LEN: usize = 256;

} // verus!
