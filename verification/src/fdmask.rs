//! A fixed-capacity set of descriptors, one bit for each.

use vstd::prelude::*;

verus! {

/// The number of descriptors that a mask has a bit for. A mask holds the
/// descriptors from 0 up to, but not including, this value.
pub const FD_SETSIZE: i32 = 1024;

/// Whether bit number `k` of `word` is set.
pub open spec fn bit(word: u64, k: u64) -> bool {
    (word >> k) & 1 == 1
}

proof fn lemma_bit_zero(k: u64)
    requires
        k < 64,
    ensures
        !bit(0, k),
{
    assert((0u64 >> k) & 1 == 0) by (bit_vector)
        requires
            k < 64,
    ;
}

proof fn lemma_bit_set(word: u64, k: u64, j: u64)
    requires
        k < 64,
        j < 64,
    ensures
        bit(word | (1u64 << k), j) == (j == k || bit(word, j)),
{
    assert((((word | (1u64 << k)) >> j) & 1 == 1) == (j == k || (word >> j) & 1 == 1))
        by (bit_vector)
        requires
            k < 64,
            j < 64,
    ;
}

proof fn lemma_bit_clear(word: u64, k: u64, j: u64)
    requires
        k < 64,
        j < 64,
    ensures
        bit(word & !(1u64 << k), j) == (j != k && bit(word, j)),
{
    assert((((word & !(1u64 << k)) >> j) & 1 == 1) == (j != k && (word >> j) & 1 == 1))
        by (bit_vector)
        requires
            k < 64,
            j < 64,
    ;
}

/// A set of descriptors below `FD_SETSIZE`, kept as a mask of 1024 bits.
#[derive(Clone, Copy, Debug)]
pub struct FdMask {
    bits: [u64; 16],
}

impl View for FdMask {
    type V = Set<i32>;

    /// The descriptors whose bit is set.
    closed spec fn view(&self) -> Set<i32> {
        Set::new(|fd: i32| 0 <= fd < FD_SETSIZE && bit(self.bits@[fd as int / 64], (fd % 64) as u64))
    }
}

impl FdMask {
    /// A mask holds only descriptors that it has a bit for.
    pub proof fn lemma_range(&self)
        ensures
            forall|fd: i32| self@.contains(fd) ==> 0 <= fd < FD_SETSIZE,
    {
    }

    /// The empty mask.
    pub fn zero() -> (mask: Self)
        ensures
            mask@ == Set::<i32>::empty(),
    {
        let mask = FdMask { bits: [0u64;16] };
        proof {
            assert forall|fd: i32| !mask@.contains(fd) by {
                if 0 <= fd < FD_SETSIZE {
                    lemma_bit_zero((fd % 64) as u64);
                }
            }
            assert(mask@ =~= Set::<i32>::empty());
        }
        mask
    }

    /// Puts `fd` into the mask.
    pub fn set(&mut self, fd: i32)
        requires
            0 <= fd < FD_SETSIZE,
        ensures
            final(self)@ == old(self)@.insert(fd),
    {
        let word: usize = (fd / 64) as usize;
        let k: u64 = (fd % 64) as u64;
        let before: u64 = self.bits[word];
        self.bits[word] = before | (1u64 << k);
        proof {
            assert forall|x: i32| self@.contains(x) <==> old(self)@.insert(fd).contains(x) by {
                if 0 <= x < FD_SETSIZE {
                    if x as int / 64 == word {
                        lemma_bit_set(before, k, (x % 64) as u64);
                    }
                }
            }
            assert(self@ =~= old(self)@.insert(fd));
        }
    }

    /// Takes `fd` out of the mask.
    pub fn clear(&mut self, fd: i32)
        requires
            0 <= fd < FD_SETSIZE,
        ensures
            final(self)@ == old(self)@.remove(fd),
    {
        let word: usize = (fd / 64) as usize;
        let k: u64 = (fd % 64) as u64;
        let before: u64 = self.bits[word];
        self.bits[word] = before & !(1u64 << k);
        proof {
            assert forall|x: i32| self@.contains(x) <==> old(self)@.remove(fd).contains(x) by {
                if 0 <= x < FD_SETSIZE {
                    if x as int / 64 == word {
                        lemma_bit_clear(before, k, (x % 64) as u64);
                    }
                }
            }
            assert(self@ =~= old(self)@.remove(fd));
        }
    }

    /// Whether the mask holds `fd`. A descriptor that the mask has no bit for
    /// is not in it.
    pub fn is_set(&self, fd: i32) -> (found: bool)
        ensures
            found == self@.contains(fd),
    {
        if fd < 0 || fd >= FD_SETSIZE {
            return false;
        }
        let word: usize = (fd / 64) as usize;
        let k: u64 = (fd % 64) as u64;
        (self.bits[word] >> k) & 1 == 1
    }
}

} // verus!
