//! Decoder for the binary "rich message" envelope of a legacy chat client:
//! a fixed header followed by a nested type-length-value stream, turned into
//! an ordered sequence of message elements (text runs and @-mentions), with
//! unrecognized records surfaced as diagnostic anomaly records.

pub mod bytes;
pub mod elements;
pub mod raw;

use vstd::prelude::*;

verus! {

/// A structural failure while decoding one message row.
#[derive(Clone, Copy, Debug, PartialEq, Eq, Structural)]
pub enum DecodeError {
    /// The buffer is shorter than a declared or fixed-size field requires.
    Truncated,
    /// A fixed-format sub-payload has the wrong exact size.
    InvalidLength,
}

} // verus!
