//! A read-only view of a run of bytes of the address space.
//!
//! The bytes of a region can be read in one way only, by `Region::read`,
//! which demands an index inside the region and counts the read. Code outside
//! this module therefore cannot read outside the region, and what it states
//! of the count holds of every byte it looked at.

use vstd::prelude::*;

verus! {

/// A run of bytes of the address space, with the address of its first byte.
///
/// The run never reaches past the last address: `base + len` fits in `usize`.
pub struct Region<'a> {
    base: usize,
    bytes: &'a [u8],
}

impl<'a> Region<'a> {
    #[verifier::type_invariant]
    spec fn in_address_space(&self) -> bool {
        self.base + self.bytes@.len() <= usize::MAX
    }

    /// The address of the first byte.
    pub closed spec fn base(&self) -> usize {
        self.base
    }

    /// The bytes of the region.
    pub closed spec fn bytes(&self) -> Seq<u8> {
        self.bytes@
    }

    /// Makes a region of `bytes` that starts at address `base`, unless it
    /// would reach past the last address.
    pub fn new(base: usize, bytes: &'a [u8]) -> (r: Option<Region<'a>>)
        ensures
            r is Some <==> base + bytes@.len() <= usize::MAX,
            r matches Some(region) ==> region.base() == base && region.bytes() == bytes@,
    {
        if bytes.len() <= usize::MAX - base {
            Some(Region { base, bytes })
        } else {
            None
        }
    }

    /// The address of the first byte.
    pub fn start(&self) -> (a: usize)
        ensures
            a == self.base(),
    {
        self.base
    }

    /// The number of bytes.
    pub fn len(&self) -> (n: usize)
        ensures
            n == self.bytes().len(),
            self.base() + n <= usize::MAX,
    {
        proof {
            use_type_invariant(self);
        }
        self.bytes.len()
    }

    /// Reads the byte at offset `i` and adds one to the count of reads.
    pub(crate) fn read(&self, i: usize, reads: &mut Ghost<nat>) -> (b: u8)
        requires
            i < self.bytes().len(),
        ensures
            b == self.bytes()[i as int],
            final(reads)@ == old(reads)@ + 1,
    {
        proof {
            *reads = Ghost((reads@ + 1) as nat);
        }
        self.bytes[i]
    }
}

} // verus!
