//! Trusted interface to `bitvec`'s bit-vector, the packed bit sequence behind
//! the page tracker, the frame allocator's used-page set, and the CPU status
//! bitmaps. The vector sits in a private field of [`BitSet`]; each wrapper
//! states, over the abstract bit sequence [`spec_bits`], what the `bitvec`
//! source shows the call does.
use vstd::prelude::*;

verus! {

/// A growable packed sequence of bits, backed by `bitvec::vec::BitVec`.
#[verifier::external_body]
pub struct BitSet {
    data: bitvec::vec::BitVec<u8, bitvec::order::Lsb0>,
}

/// The sequence of bits a [`BitSet`] holds, in index order. Named here so
/// contracts can speak about the contents; the wrappers below say how each
/// call changes it.
pub uninterp spec fn spec_bits(v: BitSet) -> Seq<bool>;

impl BitSet {
    /// Relies on `BitVec::new`: an empty bit-vector holds no bits.
    #[verifier::external_body]
    pub fn new() -> (r: BitSet)
        ensures
            spec_bits(r) == Seq::<bool>::empty(),
    {
        BitSet { data: bitvec::vec::BitVec::new() }
    }

    /// Relies on `BitVec::len`: the number of bits held.
    #[verifier::external_body]
    pub fn len(&self) -> (r: usize)
        ensures
            r == spec_bits(*self).len(),
    {
        self.data.len()
    }

    /// Relies on `BitVec::resize`: growing appends `value` bits, shrinking
    /// truncates; bits below the shorter of the two lengths are untouched.
    #[verifier::external_body]
    pub fn resize(&mut self, new_len: usize, value: bool)
        ensures
            spec_bits(*final(self)).len() == new_len,
            forall|i: int|
                0 <= i < spec_bits(*old(self)).len() && i < new_len ==> spec_bits(*final(self))[i]
                    == spec_bits(*old(self))[i],
            forall|i: int|
                spec_bits(*old(self)).len() <= i < new_len ==> spec_bits(*final(self))[i] == value,
    {
        self.data.resize(new_len, value);
    }

    /// Relies on `BitSlice`'s `Index<usize>` impl: yields the bit at `index`,
    /// which must be in bounds.
    #[verifier::external_body]
    pub fn get(&self, index: usize) -> (r: bool)
        requires
            index < spec_bits(*self).len(),
        ensures
            r == spec_bits(*self)[index as int],
    {
        self.data[index]
    }

    /// Relies on `BitSlice::set`: writes one bit in place; `index` must be in
    /// bounds.
    #[verifier::external_body]
    pub fn set(&mut self, index: usize, value: bool)
        requires
            index < spec_bits(*old(self)).len(),
        ensures
            spec_bits(*final(self)) == spec_bits(*old(self)).update(index as int, value),
    {
        self.data.set(index, value);
    }

    /// Relies on `BitSlice::first_zero`: the index of the first clear bit, or
    /// `None` when every bit is set.
    #[verifier::external_body]
    pub fn first_zero(&self) -> (r: Option<usize>)
        ensures
            match r {
                Some(i) => {
                    &&& i < spec_bits(*self).len()
                    &&& !spec_bits(*self)[i as int]
                    &&& forall|j: int| 0 <= j < i ==> spec_bits(*self)[j]
                },
                None => forall|j: int| 0 <= j < spec_bits(*self).len() ==> spec_bits(*self)[j],
            },
    {
        self.data.first_zero()
    }

    /// Relies on `BitSlice::count_ones`: the number of bits set to one.
    #[verifier::external_body]
    pub fn count_ones(&self) -> (r: usize)
        ensures
            r == spec_count_ones(spec_bits(*self)),
    {
        self.data.count_ones()
    }
}

/// How many of the bits in `s` are set.
pub open spec fn spec_count_ones(s: Seq<bool>) -> nat
    decreases s.len(),
{
    if s.len() == 0 {
        0
    } else {
        spec_count_ones(s.drop_last()) + if s.last() {
            1nat
        } else {
            0nat
        }
    }
}

} // verus!
