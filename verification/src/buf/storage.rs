//! Fixed-length storage of shared cells, indexed by free-running positions
//! that are wrapped with a mask.
use vstd::arithmetic::div_mod::lemma_fundamental_div_mod;
use vstd::arithmetic::power2::{lemma2_to64, lemma_pow2_pos, lemma_pow2_strictly_increases, pow2};
use vstd::bits::{low_bits_mask, lemma_usize_low_bits_mask_is_mod};
use crossbeam_utils::atomic::AtomicCell;
use vstd::prelude::*;

verus! {

/// `n` is a power of two.
pub open spec fn is_power_of_two(n: nat) -> bool {
    exists|k: nat| pow2(k) == n
}

/// A power of two that fits in a `usize` has an exponent below `usize::BITS`.
pub proof fn lemma_power_of_two_exponent_fits(k: nat)
    requires
        pow2(k) <= usize::MAX,
    ensures
        k < usize::BITS,
{
    lemma2_to64();
    if k >= usize::BITS {
        if k > usize::BITS {
            lemma_pow2_strictly_increases(usize::BITS as nat, k);
        }
    }
}

/// Masking with one less than a power of two gives the remainder modulo
/// that power of two.
pub proof fn lemma_mask_is_remainder(x: usize, n: nat)
    requires
        is_power_of_two(n),
        n <= usize::MAX,
    ensures
        (((n - 1) as usize) & x) == (x as int) % (n as int),
{
    let k = choose|k: nat| pow2(k) == n;
    lemma_power_of_two_exponent_fits(k);
    lemma_pow2_pos(k);
    lemma_usize_low_bits_mask_is_mod(x, k);
    let mask: usize = (n - 1) as usize;
    assert(low_bits_mask(k) == mask);
    assert((mask & x) == (x & mask)) by (bit_vector);
}

/// Two different integers less than `n` apart leave different remainders
/// modulo `n`.
pub proof fn lemma_close_values_have_distinct_remainders(a: int, b: int, n: int)
    requires
        n > 0,
        a != b,
        a - b < n,
        b - a < n,
    ensures
        a % n != b % n,
{
    lemma_fundamental_div_mod(a, n);
    lemma_fundamental_div_mod(b, n);
    if a % n == b % n {
        let k = a / n - b / n;
        assert(a - b == n * k) by (nonlinear_arith)
            requires
                a == n * (a / n) + a % n,
                b == n * (b / n) + b % n,
                a % n == b % n,
                k == a / n - b / n,
        ;
        if k >= 1 {
            assert(n * k >= n) by (nonlinear_arith)
                requires
                    k >= 1,
                    n > 0,
            ;
        } else if k <= -1 {
            assert(n * k <= -n) by (nonlinear_arith)
                requires
                    k <= -1,
                    n > 0,
            ;
        } else {
            assert(n * k == 0) by (nonlinear_arith)
                requires
                    k == 0,
            ;
        }
    }
}

/// Remainder of `lhs` divided by `rhs`, computed with a mask.
///
/// The mask gives the true remainder when `rhs` is a power of two; for any
/// other positive `rhs` it still gives a value below `rhs`.
pub fn remainder_pow2(lhs: usize, rhs: usize) -> (r: usize)
    requires
        rhs > 0,
    ensures
        r == (((rhs - 1) as usize) & lhs),
        r < rhs,
        is_power_of_two(rhs as nat) ==> r == lhs % rhs,
{
    let mask: usize = rhs - 1;
    let r: usize = mask & lhs;
    assert((mask & lhs) <= mask) by (bit_vector);
    proof {
        if is_power_of_two(rhs as nat) {
            lemma_mask_is_remainder(lhs, rhs as nat);
        }
    }
    r
}

/// Wraps a free-running `index` into a buffer of length `capacity`.
pub fn wrap_index_pow2(index: usize, capacity: usize) -> (r: usize)
    requires
        capacity > 0,
    ensures
        r == (((capacity - 1) as usize) & index),
        r < capacity,
        is_power_of_two(capacity as nat) ==> r == index % capacity,
{
    remainder_pow2(index, capacity)
}

/// A fixed-length array of shared cells. A free-running index is wrapped
/// into the array by masking, so a length that is a power of two makes the
/// wrapped index the index's remainder modulo the length.
#[verifier::reject_recursive_types(T)]
#[derive(Debug)]
pub struct HeapArray<T: Copy> {
    cells: Vec<AtomicCell<T>>,
}

impl<T: Copy> HeapArray<T> {
    /// Number of cells.
    pub closed spec fn spec_len(&self) -> nat {
        self.cells@.len()
    }

    /// The cell that a free-running `index` lands on.
    pub open spec fn spec_index(&self, index: int) -> int {
        (((self.spec_len() - 1) as usize) & (index as usize)) as int
    }

    /// The number of cells.
    pub fn len(&self) -> (r: usize)
        ensures
            r == self.spec_len(),
    {
        self.cells.len()
    }

    /// Wraps a free-running `index` into the array.
    pub fn index(&self, index: usize) -> (r: usize)
        requires
            self.spec_len() > 0,
        ensures
            r == self.spec_index(index as int),
            r < self.spec_len(),
            is_power_of_two(self.spec_len()) ==> r == (index as int) % (self.spec_len() as int),
    {
        wrap_index_pow2(index, self.cells.len())
    }

    /// Wraps `index` of channel `channel` into the array, each channel
    /// starting `channel_len` cells after the one before it.
    pub fn multi_index(&self, channel_len: usize, channel: usize, index: usize) -> (r: usize)
        requires
            self.spec_len() > 0,
            channel * channel_len + index <= usize::MAX,
        ensures
            r == self.spec_index(channel * channel_len + index),
            r < self.spec_len(),
            is_power_of_two(self.spec_len()) ==> r == (channel * channel_len + index)
                % (self.spec_len() as int),
    {
        assert(channel * channel_len <= usize::MAX) by (nonlinear_arith)
            requires
                channel * channel_len + index <= usize::MAX,
        ;
        let channel_start: usize = channel * channel_len;
        self.index(channel_start + index)
    }

    /// Stores `value` in the cell that `index` wraps to.
    pub fn write_at_index(&self, index: usize, value: T)
        requires
            self.spec_len() > 0,
    {
        let index = self.index(index);
        self.cells[index].store(value);
    }

    /// Stores `value` in the cell that `index` of `channel` wraps to.
    pub fn multi_write_at_index(&self, channel_len: usize, channel: usize, index: usize, value: T)
        requires
            self.spec_len() > 0,
            channel * channel_len + index <= usize::MAX,
    {
        let index = self.multi_index(channel_len, channel, index);
        self.write_at_index(index, value);
    }

    /// Loads the value of the cell that `index` wraps to.
    pub fn read_at_index(&self, index: usize) -> T
        requires
            self.spec_len() > 0,
    {
        let index = self.index(index);
        self.cells[index].load()
    }

    /// Replaces the value of the cell that `index` wraps to by `update`
    /// applied to it.
    pub fn mutate_at_index<F: FnOnce(T) -> T>(&self, index: usize, update: F)
        requires
            self.spec_len() > 0,
            forall|v: T| update.requires((v,)),
    {
        let index = self.index(index);
        let value = self.cells[index].load();
        self.cells[index].store(update(value));
    }

    /// Loads the value of the cell that `index` of `channel` wraps to.
    pub fn multi_read_at_index(&self, channel_len: usize, channel: usize, index: usize) -> T
        requires
            self.spec_len() > 0,
            channel * channel_len + index <= usize::MAX,
    {
        let index = self.multi_index(channel_len, channel, index);
        self.read_at_index(index)
    }

    /// Replaces the value of the cell that `index` of `channel` wraps to by
    /// `update` applied to it.
    pub fn multi_mutate_at_index<F: FnOnce(T) -> T>(
        &self,
        channel_len: usize,
        channel: usize,
        index: usize,
        update: F,
    )
        requires
            self.spec_len() > 0,
            channel * channel_len + index <= usize::MAX,
            forall|v: T| update.requires((v,)),
    {
        let index = self.multi_index(channel_len, channel, index);
        self.mutate_at_index(index, update);
    }
}

/// Positions closer together than the length of an array whose length is a
/// power of two wrap to different cells: a run of that many consecutive
/// positions uses every cell once.
pub proof fn lemma_close_positions_use_distinct_cells<T: Copy>(array: &HeapArray<T>, p: usize, q: usize)
    requires
        is_power_of_two(array.spec_len()),
        array.spec_len() <= usize::MAX,
        p != q,
        p - q < array.spec_len(),
        q - p < array.spec_len(),
    ensures
        array.spec_index(p as int) != array.spec_index(q as int),
{
    lemma_mask_is_remainder(p, array.spec_len());
    lemma_mask_is_remainder(q, array.spec_len());
    lemma_close_values_have_distinct_remainders(p as int, q as int, array.spec_len() as int);
}

impl<T: Default + Copy> HeapArray<T> {
    /// An array of `len` cells, each holding `T::default()`.
    pub fn new(len: usize) -> (r: Self)
        ensures
            r.spec_len() == len,
    {
        let mut cells: Vec<AtomicCell<T>> = Vec::new();
        let mut i: usize = 0;
        while i < len
            invariant
                i <= len,
                cells@.len() == i,
            decreases len - i,
        {
            cells.push(AtomicCell::new(T::default()));
            i = i + 1;
        }
        HeapArray { cells }
    }
}

} // verus!
