//! The capability set negotiated when the connection was set up.

use vstd::prelude::*;

verus! {

/// The server may leave out the terminator packet that older protocol
/// revisions sent after each metadata list.
pub const DEPRECATE_EOF: u64 = 0x0100_0000;

/// An immutable set of capability bits.
#[derive(Clone, Copy, Debug, PartialEq, Eq)]
pub struct Capabilities {
    bits: u64,
}

impl View for Capabilities {
    type V = u64;

    closed spec fn view(&self) -> u64 {
        self.bits
    }
}

impl Capabilities {
    /// Whether every bit of `flags` is in the set `bits`.
    pub open spec fn holds(bits: u64, flags: u64) -> bool {
        bits & flags == flags
    }

    /// Whether a connection with this set reads no list terminators.
    pub open spec fn terminators_omitted(self) -> bool {
        Self::holds(self@, DEPRECATE_EOF)
    }

    pub fn from_bits(bits: u64) -> (caps: Self)
        ensures
            caps@ == bits,
    {
        Capabilities { bits }
    }

    pub fn bits(&self) -> (bits: u64)
        ensures
            bits == self@,
    {
        self.bits
    }

    pub fn contains(&self, flags: u64) -> (found: bool)
        ensures
            found == Self::holds(self@, flags),
    {
        self.bits & flags == flags
    }

    /// The one question the preparation engine asks of the set.
    pub fn omits_terminators(&self) -> (omitted: bool)
        ensures
            omitted == self.terminators_omitted(),
    {
        self.contains(DEPRECATE_EOF)
    }
}

} // verus!
