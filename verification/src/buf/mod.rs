//! The shared buffers behind a reader/writer pair, how large they are made,
//! and which cells the positions of their channels use.
pub mod storage;

use crate::buf::storage::{is_power_of_two, lemma_close_values_have_distinct_remainders, HeapArray};
use crate::reader::{MultiRingReader, RingReader, Reader};
use crate::sync::{padded_counter, share};
use crate::writer::{MultiRingWriter, RingWriter, Writer};
use std::sync::Arc;
use crossbeam_utils::CachePadded;
use std::sync::atomic::{AtomicUsize, Ordering};
use vstd::arithmetic::power2::{pow2, lemma_pow2_pos};
use vstd::bits::{lemma_usize_pow2_no_overflow, lemma_usize_shl_is_mul};
use vstd::prelude::*;

verus! {

/// `p` is the least power of two that is at least `v`.
pub open spec fn is_least_power_of_two_at_least(p: nat, v: nat) -> bool {
    exists|k: nat| #[trigger] pow2(k) == p && v <= p && (k == 0 || pow2((k - 1) as nat) < v)
}

/// The largest power of two that a `usize` holds: half of `usize::MAX`,
/// rounded up.
pub open spec fn largest_power_of_two() -> nat {
    (usize::MAX as nat) / 2 + 1
}

/// The largest power of two that a `usize` holds is `2^(usize::BITS - 1)`.
pub proof fn lemma_largest_power_of_two_fits()
    ensures
        largest_power_of_two() == pow2((usize::BITS - 1) as nat),
        0 < largest_power_of_two() < usize::MAX,
{
    vstd::arithmetic::power2::lemma2_to64();
    vstd::arithmetic::power2::lemma2_to64_rest();
    lemma_usize_pow2_no_overflow((usize::BITS - 1) as nat);
    if usize::BITS == 32 {
        assert(usize::MAX == 0xffff_ffff);
        assert(pow2(31) == 0x8000_0000);
    } else {
        assert(usize::BITS == 64);
        assert(usize::MAX == 0xffff_ffff_ffff_ffff);
        assert(pow2(63) == 0x8000_0000_0000_0000);
    }
}

/// The least power of two that is at least `value`, or 0 when no power of
/// two in a `usize` is large enough.
pub fn power_of_two_ceiling(value: usize) -> (r: usize)
    ensures
        value <= largest_power_of_two() ==> is_least_power_of_two_at_least(r as nat, value as nat),
        value > largest_power_of_two() ==> r == 0,
{
    proof {
        lemma_largest_power_of_two_fits();
    }
    for i in 0..usize::BITS
        invariant
            largest_power_of_two() == pow2((usize::BITS - 1) as nat),
            forall|j: nat| j < i ==> #[trigger] pow2(j) < value,
    {
        let pow: usize = 1usize << i;
        proof {
            lemma_usize_pow2_no_overflow(i as nat);
            lemma_usize_shl_is_mul(1usize, i as usize);
            assert((1usize << i) == (1usize << (i as usize))) by (bit_vector);
        }
        if pow >= value {
            proof {
                if i > 0 {
                    assert(pow2((i - 1) as nat) < value);
                }
                assert(is_least_power_of_two_at_least(pow as nat, value as nat));
                if value > largest_power_of_two() {
                    vstd::arithmetic::power2::lemma_pow2_strictly_increases(i as nat, (usize::BITS - 1) as nat);
                    assert(false);
                }
            }
            return pow;
        }
    }
    proof {
        if value <= largest_power_of_two() {
            assert(pow2((usize::BITS - 1) as nat) < value);
        }
    }
    0
}

/// A fresh position counter, at 0.
fn initial_position() -> CachePadded<AtomicUsize> {
    CachePadded::new(AtomicUsize::new(0))
}

/// Loads a position counter.
fn load_position(counter: &CachePadded<AtomicUsize>) -> usize {
    padded_counter(counter).load(Ordering::Acquire)
}

/// Adds `amount` to a position counter and returns the counter's new value,
/// which wraps around as the counter does.
fn advance_position(counter: &CachePadded<AtomicUsize>, amount: usize) -> usize {
    let old = padded_counter(counter).fetch_add(amount, Ordering::AcqRel);
    position_after(old, amount)
}

/// The position `amount` places after `old`, wrapping around past
/// `usize::MAX` as the shared counters do.
pub fn position_after(old: usize, amount: usize) -> (r: usize)
    ensures
        r == (if old + amount > usize::MAX {
            old + amount - usize::MAX - 1
        } else {
            old + amount
        }),
{
    old.wrapping_add(amount)
}

/// Whether a buffer shared by `count` handles is closed: fewer than two
/// handles means the other side has been dropped.
pub fn closed_for_count(count: usize) -> (r: bool)
    ensures
        r == (count < 2),
{
    count < 2
}

/// The shared state of a single-channel ring buffer: the cells, the write
/// capacity, and the read and write position counters.
#[verifier::reject_recursive_types(T)]
#[derive(Debug)]
pub struct RingBuf<T: Copy> {
    buf: HeapArray<T>,
    write_capacity: usize,
    read_position: CachePadded<AtomicUsize>,
    write_position: CachePadded<AtomicUsize>,
}

impl<T: Copy> RingBuf<T> {
    /// The buffer's length is a power of two and the write capacity fits in
    /// it.
    #[verifier::type_invariant]
    pub closed spec fn wf(&self) -> bool {
        &&& is_power_of_two(self.buf.spec_len())
        &&& self.buf.spec_len() <= usize::MAX
        &&& self.write_capacity <= self.buf.spec_len()
    }

    /// Number of cells in the buffer.
    pub closed spec fn spec_len(&self) -> nat {
        self.buf.spec_len()
    }

    /// Number of values that can be written ahead of the read position.
    pub closed spec fn spec_write_capacity(&self) -> nat {
        self.write_capacity as nat
    }

    /// Number of values kept behind the read position.
    pub open spec fn spec_read_capacity(&self) -> nat {
        (self.spec_len() - self.spec_write_capacity()) as nat
    }

    /// The cell that the free-running position `index` lands on.
    pub open spec fn spec_cell(&self, index: int) -> int {
        index % (self.spec_len() as int)
    }

    /// Both capacities fit in a `usize`.
    pub proof fn lemma_capacities_fit(&self)
        requires
            self.wf(),
        ensures
            self.spec_read_capacity() <= usize::MAX,
            self.spec_write_capacity() <= usize::MAX,
    {
    }

    /// Loads the shared read position.
    pub fn read_position(&self) -> usize {
        load_position(&self.read_position)
    }

    /// Loads the shared write position.
    pub fn write_position(&self) -> usize {
        load_position(&self.write_position)
    }

    /// Loads the value at the free-running position `index`.
    pub fn read_at_index(&self, index: usize) -> T {
        proof {
            use_type_invariant(self);
            lemma_power_of_two_positive(self.buf.spec_len());
        }
        self.buf.read_at_index(index)
    }

    /// Stores `value` at the free-running position `index`.
    pub fn write_at_index(&self, index: usize, value: T) {
        proof {
            use_type_invariant(self);
            lemma_power_of_two_positive(self.buf.spec_len());
        }
        self.buf.write_at_index(index, value);
    }

    /// Replaces the value at the free-running position `index` by `update`
    /// applied to it.
    pub fn mutate_at_index<F: FnOnce(T) -> T>(&self, index: usize, update: F)
        requires
            forall|v: T| update.requires((v,)),
    {
        proof {
            use_type_invariant(self);
            lemma_power_of_two_positive(self.buf.spec_len());
        }
        self.buf.mutate_at_index(index, update);
    }

    /// Moves the shared read position forward by `amount` and returns the
    /// new read position.
    pub fn advance_read_position_by(&self, amount: usize) -> usize {
        advance_position(&self.read_position, amount)
    }

    /// Moves the shared write position forward by `amount` and returns the
    /// new write position.
    pub fn advance_write_position_by(&self, amount: usize) -> usize {
        advance_position(&self.write_position, amount)
    }

    /// Number of values kept behind the read position.
    pub fn read_capacity(&self) -> (r: usize)
        ensures
            r == self.spec_read_capacity(),
            self.wf(),
    {
        proof {
            use_type_invariant(self);
        }
        self.buf.len() - self.write_capacity()
    }

    /// Number of values that can be written ahead of the read position.
    pub fn write_capacity(&self) -> (r: usize)
        ensures
            r == self.spec_write_capacity(),
            self.wf(),
    {
        proof {
            use_type_invariant(self);
        }
        self.write_capacity
    }
}

/// The shared state of a multi-channel ring buffer: the channels share one
/// read position, one write position and one pair of capacities, and each
/// channel starts `channel_len` cells after the one before it.
#[verifier::reject_recursive_types(T)]
#[derive(Debug)]
pub struct MultiRingBuf<T: Copy> {
    buf: HeapArray<T>,
    channels: usize,
    channel_len: usize,
    write_capacity: usize,
    read_position: CachePadded<AtomicUsize>,
    write_position: CachePadded<AtomicUsize>,
}

impl<T: Copy> MultiRingBuf<T> {
    /// The buffer's length is a power of two, there is at least one channel,
    /// the write capacity fits in a channel and the channels fit in the
    /// buffer.
    #[verifier::type_invariant]
    pub closed spec fn wf(&self) -> bool {
        &&& is_power_of_two(self.buf.spec_len())
        &&& self.buf.spec_len() <= usize::MAX
        &&& self.channels > 0
        &&& self.write_capacity <= self.channel_len
        &&& self.channels * self.channel_len <= self.buf.spec_len()
    }

    /// Number of cells in the buffer.
    pub closed spec fn spec_len(&self) -> nat {
        self.buf.spec_len()
    }

    /// Number of channels.
    pub closed spec fn spec_channels(&self) -> nat {
        self.channels as nat
    }

    /// Number of cells between the starts of two neighbouring channels.
    pub closed spec fn spec_channel_len(&self) -> nat {
        self.channel_len as nat
    }

    /// Number of values that can be written ahead of the read position.
    pub closed spec fn spec_write_capacity(&self) -> nat {
        self.write_capacity as nat
    }

    /// Number of values kept behind the read position.
    pub open spec fn spec_read_capacity(&self) -> nat {
        (self.spec_channel_len() - self.spec_write_capacity()) as nat
    }

    /// The cell that the free-running position `index` of `channel` lands
    /// on.
    pub open spec fn spec_cell(&self, channel: int, index: int) -> int {
        (channel * self.spec_channel_len() + index) % (self.spec_len() as int)
    }

    /// Both capacities fit in a `usize`.
    pub proof fn lemma_capacities_fit(&self)
        requires
            self.wf(),
        ensures
            self.spec_read_capacity() <= usize::MAX,
            self.spec_write_capacity() <= usize::MAX,
    {
    }

    /// Loads the shared read position.
    pub fn read_position(&self) -> usize {
        load_position(&self.read_position)
    }

    /// Loads the shared write position.
    pub fn write_position(&self) -> usize {
        load_position(&self.write_position)
    }

    /// Loads the value of `channel` at the free-running position `index`.
    pub fn read_at_index(&self, channel: usize, index: usize) -> T
        requires
            channel * self.spec_channel_len() + index <= usize::MAX,
    {
        proof {
            use_type_invariant(self);
            lemma_power_of_two_positive(self.buf.spec_len());
        }
        self.buf.multi_read_at_index(self.channel_len, channel, index)
    }

    /// Stores `value` in `channel` at the free-running position `index`.
    pub fn write_at_index(&self, channel: usize, index: usize, value: T)
        requires
            channel * self.spec_channel_len() + index <= usize::MAX,
    {
        proof {
            use_type_invariant(self);
            lemma_power_of_two_positive(self.buf.spec_len());
        }
        self.buf.multi_write_at_index(self.channel_len, channel, index, value)
    }

    /// Replaces the value of `channel` at the free-running position `index`
    /// by `update` applied to it.
    pub fn mutate_at_index<F: FnOnce(T) -> T>(
        &self,
        channel: usize,
        index: usize,
        update: F,
    )
        requires
            channel * self.spec_channel_len() + index <= usize::MAX,
            forall|v: T| update.requires((v,)),
    {
        proof {
            use_type_invariant(self);
            lemma_power_of_two_positive(self.buf.spec_len());
        }
        self.buf.multi_mutate_at_index(self.channel_len, channel, index, update)
    }

    /// Moves the shared read position forward by `amount` and returns the
    /// new read position.
    pub fn advance_read_position_by(&self, amount: usize) -> usize {
        advance_position(&self.read_position, amount)
    }

    /// Moves the shared write position forward by `amount` and returns the
    /// new write position.
    pub fn advance_write_position_by(&self, amount: usize) -> usize {
        advance_position(&self.write_position, amount)
    }

    /// Number of values kept behind the read position.
    pub fn read_capacity(&self) -> (r: usize)
        ensures
            r == self.spec_read_capacity(),
            self.wf(),
    {
        proof {
            use_type_invariant(self);
        }
        self.channel_len - self.write_capacity
    }

    /// Number of values that can be written ahead of the read position.
    pub fn write_capacity(&self) -> (r: usize)
        ensures
            r == self.spec_write_capacity(),
            self.wf(),
    {
        proof {
            use_type_invariant(self);
        }
        self.write_capacity
    }

    /// Number of channels.
    pub fn channels(&self) -> (r: usize)
        ensures
            r == self.spec_channels(),
            self.wf(),
    {
        proof {
            use_type_invariant(self);
        }
        self.channels
    }
}

impl<T: Copy> RingBuf<T> {
    /// This buffer is what a request for `read_capacity` and
    /// `write_capacity` gives: its length is the least power of two that
    /// holds both, the read capacity is the one asked for, and the write
    /// capacity is the one asked for plus all the room left over.
    pub open spec fn made_for(&self, read_capacity: nat, write_capacity: nat) -> bool {
        &&& self.wf()
        &&& is_least_power_of_two_at_least(self.spec_len(), read_capacity + write_capacity)
        &&& self.spec_read_capacity() == read_capacity
        &&& self.spec_write_capacity() == write_capacity + self.spec_len() - (read_capacity
            + write_capacity)
    }
}

impl<T: Copy + Default> RingBuf<T> {
    /// Allocates a buffer for `read_capacity` and `write_capacity` and
    /// returns a reader and a writer that share it, both at position 0.
    fn new(read_capacity: usize, write_capacity: usize) -> (r: (RingReader<T>, RingWriter<T>))
        requires
            read_capacity + write_capacity <= largest_power_of_two(),
        ensures
            r.0.ring() == r.1.ring(),
            r.0.ring().made_for(read_capacity as nat, write_capacity as nat),
            r.0.spec_read_position() == 0,
            r.0.spec_cached_write_position() == 0,
            r.0.spec_read_capacity() == read_capacity,
            r.1.spec_write_position() == 0,
            r.1.spec_cached_read_position() == 0,
            r.1.spec_write_capacity() == r.1.ring().spec_write_capacity(),
    {
        proof {
            lemma_largest_power_of_two_fits();
        }
        let total_length_needed = read_capacity + write_capacity;
        let total_length = power_of_two_ceiling(total_length_needed);
        let buf = HeapArray::<T>::new(total_length);
        let write_capacity = write_capacity + (total_length - total_length_needed);
        let buffer = Arc::new(
            RingBuf {
                buf,
                write_capacity,
                read_position: initial_position(),
                write_position: initial_position(),
            },
        );
        (RingReader::new(share(&buffer)), RingWriter::new(buffer))
    }
}

impl<T: Copy> MultiRingBuf<T> {
    /// This buffer is what a request for `channels` channels, each with
    /// `read_capacity` and `write_capacity`, gives: its length is the least
    /// power of two that holds all the channels, the read capacity is the
    /// one asked for, and the room left over is shared out among the
    /// channels as extra write capacity.
    pub open spec fn made_for(&self, channels: nat, read_capacity: nat, write_capacity: nat) -> bool {
        let needed = (read_capacity + write_capacity) * channels;
        &&& self.wf()
        &&& is_least_power_of_two_at_least(self.spec_len(), needed)
        &&& self.spec_channels() == channels
        &&& self.spec_read_capacity() == read_capacity
        &&& self.spec_write_capacity() == write_capacity + (self.spec_len() - needed) as nat
            / channels
        &&& self.spec_channel_len() == read_capacity + self.spec_write_capacity()
    }
}

impl<T: Default + Copy> MultiRingBuf<T> {
    /// Allocates a buffer of `channels` channels for `read_capacity` and
    /// `write_capacity` and returns a reader and a writer that share it,
    /// both at position 0.
    pub fn new(channels: usize, read_capacity: usize, write_capacity: usize) -> (r: (
        MultiRingReader<T>,
        MultiRingWriter<T>,
    ))
        requires
            channels > 0,
            (read_capacity + write_capacity) * channels <= largest_power_of_two(),
        ensures
            r.0.ring() == r.1.ring(),
            r.0.ring().made_for(channels as nat, read_capacity as nat, write_capacity as nat),
            r.0.spec_read_position() == 0,
            r.0.spec_cached_write_position() == 0,
            r.0.spec_read_capacity() == read_capacity,
            r.1.spec_write_position() == 0,
            r.1.spec_cached_read_position() == 0,
            r.1.spec_write_capacity() == r.1.ring().spec_write_capacity(),
    {
        proof {
            lemma_largest_power_of_two_fits();
            lemma_product_bounds(channels as int, (read_capacity + write_capacity) as int);
        }
        let channel_len_needed = read_capacity + write_capacity;
        let total_length_needed = channel_len_needed * channels;
        let total_length = power_of_two_ceiling(total_length_needed);
        let spare: usize = total_length - total_length_needed;
        proof {
            lemma_share_out(channels as int, channel_len_needed as int, spare as int);
        }
        let write_capacity = write_capacity + (spare / channels);
        let channel_len = read_capacity + write_capacity;
        let buf = HeapArray::new(total_length);
        proof {
            vstd::arithmetic::mul::lemma_mul_is_commutative(channels as int, channel_len as int);
            assert(channels * channel_len <= total_length);
        }
        let ringbuf = Arc::new(
            MultiRingBuf {
                channels,
                channel_len,
                write_capacity,
                read_position: initial_position(),
                write_position: initial_position(),
                buf,
            },
        );
        (MultiRingReader::new(share(&ringbuf)), MultiRingWriter::new(ringbuf))
    }
}

/// Creates a single-channel ring buffer and returns a reader/writer pair.
pub fn ring_buf<T: Copy + Default>(read_capacity: usize, write_capacity: usize) -> (r: (
    RingReader<T>,
    RingWriter<T>,
))
    requires
        read_capacity + write_capacity <= largest_power_of_two(),
    ensures
        r.0.ring() == r.1.ring(),
        r.0.ring().made_for(read_capacity as nat, write_capacity as nat),
        r.0.spec_read_position() == 0,
        r.0.spec_cached_write_position() == 0,
        r.0.spec_read_capacity() == read_capacity,
        r.1.spec_write_position() == 0,
        r.1.spec_cached_read_position() == 0,
        r.1.spec_write_capacity() == r.1.ring().spec_write_capacity(),
{
    RingBuf::<T>::new(read_capacity, write_capacity)
}

/// Creates a multi-channel ring buffer and returns a reader/writer pair.
pub fn multi_ring_buf<T: Copy + Default>(
    channels: usize,
    read_capacity: usize,
    write_capacity: usize,
) -> (r: (MultiRingReader<T>, MultiRingWriter<T>))
    requires
        channels > 0,
        (read_capacity + write_capacity) * channels <= largest_power_of_two(),
    ensures
        r.0.ring() == r.1.ring(),
        r.0.ring().made_for(channels as nat, read_capacity as nat, write_capacity as nat),
        r.0.spec_read_position() == 0,
        r.0.spec_cached_write_position() == 0,
        r.0.spec_read_capacity() == read_capacity,
        r.1.spec_write_position() == 0,
        r.1.spec_cached_read_position() == 0,
        r.1.spec_write_capacity() == r.1.ring().spec_write_capacity(),
{
    MultiRingBuf::<T>::new(channels, read_capacity, write_capacity)
}

/// The read capacity and the write capacity of a buffer together take up
/// all of its cells, and their number is a power of two.
pub proof fn lemma_capacities_fill_buffer<T: Copy>(ring: RingBuf<T>)
    requires
        ring.wf(),
    ensures
        ring.spec_read_capacity() + ring.spec_write_capacity() == ring.spec_len(),
        is_power_of_two(ring.spec_len()),
{
}

/// Within any run of `read_capacity + write_capacity` consecutive positions
/// no two positions share a cell: values kept behind the read position are
/// not overwritten by writes within the write capacity ahead of it.
pub proof fn lemma_window_cells_distinct<T: Copy>(ring: RingBuf<T>, start: int, p: int, q: int)
    requires
        ring.wf(),
        start <= p < start + ring.spec_read_capacity() + ring.spec_write_capacity(),
        start <= q < start + ring.spec_read_capacity() + ring.spec_write_capacity(),
        p != q,
    ensures
        ring.spec_cell(p) != ring.spec_cell(q),
{
    lemma_power_of_two_positive(ring.spec_len());
    lemma_close_values_have_distinct_remainders(p, q, ring.spec_len() as int);
}

/// In a multi-channel buffer, within any run of `channel_len` consecutive
/// positions, no two (channel, position) pairs share a cell: the channels
/// never overwrite each other's values within the capacities.
pub proof fn lemma_channel_cells_distinct<T: Copy>(
    ring: MultiRingBuf<T>,
    start: int,
    c1: int,
    p1: int,
    c2: int,
    p2: int,
)
    requires
        ring.wf(),
        0 <= c1 < ring.spec_channels(),
        0 <= c2 < ring.spec_channels(),
        start <= p1 < start + ring.spec_channel_len(),
        start <= p2 < start + ring.spec_channel_len(),
        c1 != c2 || p1 != p2,
    ensures
        ring.spec_cell(c1, p1) != ring.spec_cell(c2, p2),
{
    let len = ring.spec_channel_len() as int;
    let channels = ring.spec_channels() as int;
    let total = ring.spec_len() as int;
    lemma_power_of_two_positive(ring.spec_len());
    assert(len <= channels * len) by (nonlinear_arith)
        requires
            channels >= 1,
            len >= 0,
    ;
    let a1 = c1 * len + p1;
    let a2 = c2 * len + p2;
    if c1 == c2 {
        assert(a1 - a2 == p1 - p2);
    } else {
        let (lo_c, lo_p, hi_c, hi_p) = if c1 < c2 {
            (c1, p1, c2, p2)
        } else {
            (c2, p2, c1, p1)
        };
        assert((hi_c * len + hi_p) - (lo_c * len + lo_p) > 0 && (hi_c * len + hi_p) - (lo_c * len
            + lo_p) < channels * len) by (nonlinear_arith)
            requires
                0 <= lo_c < hi_c < channels,
                start <= lo_p < start + len,
                start <= hi_p < start + len,
                len >= 0,
        ;
    }
    lemma_close_values_have_distinct_remainders(a1, a2, total);
}

/// A product with a positive factor is at least the other factor.
proof fn lemma_product_bounds(channels: int, per_channel: int)
    requires
        channels > 0,
        per_channel >= 0,
    ensures
        per_channel <= per_channel * channels,
{
    assert(per_channel <= per_channel * channels) by (nonlinear_arith)
        requires
            channels > 0,
            per_channel >= 0,
    ;
}

/// Sharing `spare` cells out evenly among `channels` channels of
/// `per_channel` cells each keeps them within `per_channel * channels +
/// spare` cells.
proof fn lemma_share_out(channels: int, per_channel: int, spare: int)
    requires
        channels > 0,
        per_channel >= 0,
        spare >= 0,
    ensures
        spare / channels <= spare,
        (per_channel + spare / channels) * channels <= per_channel * channels + spare,
        per_channel + spare / channels <= (per_channel + spare / channels) * channels,
{
    vstd::arithmetic::div_mod::lemma_fundamental_div_mod(spare, channels);
    vstd::arithmetic::div_mod::lemma_mod_pos_bound(spare, channels);
    let q = spare / channels;
    assert(q >= 0) by (nonlinear_arith)
        requires
            spare >= 0,
            channels > 0,
            q == spare / channels,
    ;
    assert(q <= spare) by (nonlinear_arith)
        requires
            spare == channels * q + spare % channels,
            spare % channels >= 0,
            channels > 0,
            q >= 0,
    ;
    assert((per_channel + q) * channels <= per_channel * channels + spare) by (nonlinear_arith)
        requires
            spare == channels * q + spare % channels,
            spare % channels >= 0,
    ;
    lemma_product_bounds(channels, per_channel + q);
}

/// A power of two is positive.
pub proof fn lemma_power_of_two_positive(n: nat)
    requires
        is_power_of_two(n),
    ensures
        n > 0,
{
    let k = choose|k: nat| pow2(k) == n;
    lemma_pow2_pos(k);
}

} // verus!
