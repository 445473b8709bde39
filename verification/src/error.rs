//! The ways in which a stream can be found corrupt.

use vstd::prelude::*;

verus! {

/// A terminal condition of the stream. Framing cannot be realigned after one
/// of these: the only recovery is to drop the connection.
#[derive(Debug, Clone, Copy, PartialEq, Eq, Structural)]
pub enum FrameError {
    /// A header was decoded before both of its bytes were present.
    MalformedHeader,
}

} // verus!
