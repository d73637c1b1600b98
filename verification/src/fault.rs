//! The conditions under which the machine cannot go on.
use vstd::prelude::*;

verus! {

/// Why a step could not be carried out. None of these is recoverable: the
/// program or the state it built is wrong.
#[derive(Clone, Copy, Debug, PartialEq, Eq, Structural)]
pub enum Fault {
    /// The instruction word has no meaning.
    UnknownOpcode(u16),
    /// A return was asked for while no call was open.
    StackUnderflow,
    /// The address lies outside the memory; it is the first such address
    /// that the step would have touched.
    OutOfBounds(u16),
    /// A register that should name a key holds a value above 15.
    KeyOutOfRange(u8),
}

} // verus!
