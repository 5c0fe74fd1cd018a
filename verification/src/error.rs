//! The way decoding can fail.

use vstd::prelude::*;

verus! {

/// Why a module could not be decoded.
#[derive(Clone, Copy, Debug, PartialEq, Eq, Structural)]
pub enum DecodeError {
    /// The input ended before the bytes of the current field or section were available.
    TruncatedInput,
}

} // verus!
