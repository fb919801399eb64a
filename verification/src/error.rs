//! The runtime's single failure mode.

use vstd::prelude::*;

verus! {

/// Any read whose computed byte range would exceed the buffer's length, and
/// any vtable whose header describes an impossible layout, is reported as
/// `OutOfBounds`.  No read path panics on untrusted input.
#[derive(Clone, Copy, Debug, PartialEq, Eq, Structural)]
pub enum Error {
    OutOfBounds,
}

} // verus!
