//! The flags that select which backings `init` starts.
use vstd::prelude::*;

verus! {

/// Initialize for receiving on the iceoryx2 backing.
pub const INIT_IOX2_RECV: u32 = 0b001;
/// Initialize for sending on the iceoryx2 backing.
pub const INIT_IOX2_SEND: u32 = 0b010;
/// Initialize the websocket gateway backing.
pub const INIT_WS_GATEWAY: u32 = 0b100;
/// Every flag that has a meaning.
pub const ALL_INIT_FLAGS: u32 = 0b111;

/// Flags used during the initialization of SkyCurrent: a set of the bits
/// [`INIT_IOX2_RECV`], [`INIT_IOX2_SEND`] and [`INIT_WS_GATEWAY`].
#[derive(Clone, Copy, PartialEq, Eq, Structural, Debug)]
pub struct InitFlags {
    bits: u32,
}

impl View for InitFlags {
    type V = u32;

    closed spec fn view(&self) -> u32 {
        self.bits
    }
}

impl InitFlags {
    /// The set with no flag.
    pub fn empty() -> (flags: InitFlags)
        ensures
            flags@ == 0,
    {
        InitFlags { bits: 0 }
    }

    /// The set with every flag.
    pub fn all() -> (flags: InitFlags)
        ensures
            flags@ == ALL_INIT_FLAGS,
    {
        InitFlags { bits: ALL_INIT_FLAGS }
    }

    /// The flags named by `bits`; bits that name no flag are dropped.
    pub fn from_bits_truncate(bits: u32) -> (flags: InitFlags)
        ensures
            flags@ == bits & ALL_INIT_FLAGS,
    {
        InitFlags { bits: bits & ALL_INIT_FLAGS }
    }

    /// The flags named by `bits`, or `None` when `bits` holds a bit that names no flag.
    pub fn from_bits(bits: u32) -> (flags: Option<InitFlags>)
        ensures
            match flags {
                Some(f) => bits & !ALL_INIT_FLAGS == 0 && f@ == bits,
                None => bits & !ALL_INIT_FLAGS != 0,
            },
    {
        if bits & !ALL_INIT_FLAGS == 0 {
            Some(InitFlags { bits })
        } else {
            None
        }
    }

    /// The raw bits of the set.
    pub fn bits(&self) -> (bits: u32)
        ensures
            bits == self@,
    {
        self.bits
    }

    /// The flags that are in either set.
    pub fn union(self, other: InitFlags) -> (flags: InitFlags)
        ensures
            flags@ == self@ | other@,
    {
        InitFlags { bits: self.bits | other.bits }
    }

    /// Whether the two sets share a flag.
    pub fn intersects(&self, other: InitFlags) -> (b: bool)
        ensures
            b == (self@ & other@ != 0),
    {
        self.bits & other.bits != 0
    }

    /// Whether every flag of `other` is in this set.
    pub fn contains(&self, other: InitFlags) -> (b: bool)
        ensures
            b == (self@ & other@ == other@),
    {
        self.bits & other.bits == other.bits
    }
}

/// A set built by `union` shares a flag with another set exactly when one of its two
/// halves does.
pub proof fn lemma_union_intersects(a: u32, b: u32, c: u32)
    ensures
        ((a | b) & c != 0) == ((a & c != 0) || (b & c != 0)),
{
    assert(((a | b) & c != 0) == ((a & c != 0) || (b & c != 0))) by (bit_vector);
}

} // verus!
