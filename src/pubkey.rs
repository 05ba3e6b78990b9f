use vstd::prelude::*;

verus! {

/// A 32-byte account address, held as two 128-bit halves. The all-zero key
/// marks an unused slot.
#[derive(Clone, Copy, Debug, PartialEq, Eq, Structural)]
pub struct Pubkey {
    pub hi: u128,
    pub lo: u128,
}

impl Pubkey {
    /// A key from its two halves.
    pub fn new(hi: u128, lo: u128) -> (r: Pubkey)
        ensures
            r.hi == hi,
            r.lo == lo,
    {
        Pubkey { hi, lo }
    }

    /// The all-zero key.
    pub fn default_key() -> (r: Pubkey)
        ensures
            r.hi == 0,
            r.lo == 0,
    {
        Pubkey { hi: 0, lo: 0 }
    }

    /// Whether this is the all-zero key.
    pub fn is_default(&self) -> (r: bool)
        ensures
            r == (self.hi == 0 && self.lo == 0),
    {
        self.hi == 0 && self.lo == 0
    }
}

} // verus!
