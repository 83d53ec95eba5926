//! Writers: the producing half of a ring buffer. The availability checks
//! work from a cached read position and load the shared one only when the
//! cache does not show enough room.
use crate::buf::{closed_for_count, MultiRingBuf, RingBuf};
use crate::reader::position_distance;
use crate::sync::handle_count;
use std::sync::Arc;
use vstd::prelude::*;

verus! {

/// The number of values written ahead of `read_position`: none when the
/// read position is ahead of `write_position`.
pub open spec fn used_slots(write_position: usize, read_position: usize) -> usize {
    if write_position >= read_position {
        (write_position - read_position) as usize
    } else {
        0
    }
}

/// The number of values that can still be written: the write capacity less
/// the values written ahead of the read position. Like the positions, the
/// count wraps around when more was written than the capacity allows.
pub open spec fn free_slots(
    write_capacity: usize,
    write_position: usize,
    read_position: usize,
) -> usize {
    let used = used_slots(write_position, read_position);
    if used <= write_capacity {
        (write_capacity - used) as usize
    } else {
        (write_capacity - used + usize::MAX + 1) as usize
    }
}

/// Shared functionality of ring buffer writers.
///
/// A writer owns the write position: it alone moves it. It caches the read
/// position that it last loaded from the buffer, which the reader moves.
pub trait Writer: Sized {
    /// The writer's write position.
    spec fn spec_write_position(&self) -> usize;

    /// The number of values that can be written ahead of the read position.
    spec fn spec_write_capacity(&self) -> usize;

    /// The read position as the writer last loaded it.
    spec fn spec_cached_read_position(&self) -> usize;

    /// This writer once it has cached `read_position` as the read position,
    /// and changed nothing else.
    spec fn spec_cache_read_position(self, read_position: usize) -> Self;

    /// Gets the current (real) write position within the ring buffer.
    fn write_position(&self) -> (r: usize)
        ensures
            r == self.spec_write_position(),
    ;

    /// Gets the write capacity of the ring buffer, the number of values the
    /// ring buffer can write ahead of its read position.
    fn write_capacity(&self) -> (r: usize)
        ensures
            r == self.spec_write_capacity(),
    ;

    /// Loads the real read position from the ring buffer, caching the result
    /// within this writer. The reader moves it, so its value is whatever the
    /// reader last published.
    fn real_read_position(&mut self) -> (r: usize)
        ensures
            *final(self) == old(self).spec_cache_read_position(r),
            final(self).spec_cached_read_position() == r,
            final(self).spec_write_position() == old(self).spec_write_position(),
            final(self).spec_write_capacity() == old(self).spec_write_capacity(),
    ;

    /// Returns the cached read position, avoiding an atomic load.
    fn cached_read_position(&self) -> (r: usize)
        ensures
            r == self.spec_cached_read_position(),
    ;

    /// Moves the write position forward by `amount`.
    fn advance_write_position_by(&mut self, amount: usize)
        requires
            old(self).spec_write_position() + amount <= usize::MAX,
        ensures
            final(self).spec_write_position() == old(self).spec_write_position() + amount,
            final(self).spec_cached_read_position() == old(self).spec_cached_read_position(),
            final(self).spec_write_capacity() == old(self).spec_write_capacity(),
    ;

    /// Moves the write position forward by 1.
    fn advance_write_position(&mut self)
        requires
            old(self).spec_write_position() + 1 <= usize::MAX,
        ensures
            final(self).spec_write_position() == old(self).spec_write_position() + 1,
            final(self).spec_cached_read_position() == old(self).spec_cached_read_position(),
            final(self).spec_write_capacity() == old(self).spec_write_capacity(),
    {
        self.advance_write_position_by(1);
    }

    /// The number of values that can be written, from a freshly loaded read
    /// position, which is cached within this writer.
    fn real_writes_available(&mut self) -> (r: usize)
        ensures
            r == free_slots(
                final(self).spec_write_capacity(),
                final(self).spec_write_position(),
                final(self).spec_cached_read_position(),
            ),
            *final(self) == old(self).spec_cache_read_position(
                final(self).spec_cached_read_position(),
            ),
            final(self).spec_write_position() == old(self).spec_write_position(),
            final(self).spec_write_capacity() == old(self).spec_write_capacity(),
    {
        let write_position = self.write_position();
        let write_capacity = self.write_capacity();
        let real_read_position = self.real_read_position();
        writes_available(write_position, write_capacity, real_read_position)
    }

    /// The number of values that can be written, from the cached read
    /// position. This avoids an atomic load.
    fn cached_writes_available(&self) -> (r: usize)
        ensures
            r == free_slots(
                self.spec_write_capacity(),
                self.spec_write_position(),
                self.spec_cached_read_position(),
            ),
    {
        writes_available(
            self.write_position(),
            self.write_capacity(),
            self.cached_read_position(),
        )
    }

    /// Returns true if at least one value can be written. The read position
    /// is loaded again only when the cached one shows the buffer full.
    fn write_is_available(&mut self) -> (r: bool)
        ensures
            r == (used_slots(
                final(self).spec_write_position(),
                final(self).spec_cached_read_position(),
            ) < final(self).spec_write_capacity()),
            final(self).spec_write_position() == old(self).spec_write_position(),
            final(self).spec_write_capacity() == old(self).spec_write_capacity(),
            used_slots(old(self).spec_write_position(), old(self).spec_cached_read_position())
                < old(self).spec_write_capacity() ==> *final(self) == *old(self),
            *final(self) == *old(self) || *final(self) == old(self).spec_cache_read_position(
                final(self).spec_cached_read_position(),
            ),
    {
        let write_position = self.write_position();
        let write_capacity = self.write_capacity();
        if full(self.cached_read_position(), write_position, write_capacity) {
            let real_read_position = self.real_read_position();
            return !full(real_read_position, write_position, write_capacity);
        }
        true
    }

    /// Returns true if `amount` values can be written. The read position is
    /// loaded again only when the cached one shows too little room.
    fn writes_are_available(&mut self, amount: usize) -> (r: bool)
        ensures
            r == (free_slots(
                final(self).spec_write_capacity(),
                final(self).spec_write_position(),
                final(self).spec_cached_read_position(),
            ) >= amount),
            final(self).spec_write_position() == old(self).spec_write_position(),
            final(self).spec_write_capacity() == old(self).spec_write_capacity(),
            free_slots(
                old(self).spec_write_capacity(),
                old(self).spec_write_position(),
                old(self).spec_cached_read_position(),
            ) >= amount ==> *final(self) == *old(self),
            *final(self) == *old(self) || *final(self) == old(self).spec_cache_read_position(
                final(self).spec_cached_read_position(),
            ),
    {
        if self.cached_writes_available() < amount {
            return self.real_writes_available() >= amount;
        }
        true
    }
}

/// The number of values that can be written at `write_position` with
/// `write_capacity`, given the reader at `read_position`.
fn writes_available(write_position: usize, write_capacity: usize, read_position: usize) -> (r:
    usize)
    ensures
        r == free_slots(write_capacity, write_position, read_position),
{
    write_capacity.wrapping_sub(write_position.saturating_sub(read_position))
}

/// Returns true if a value can be written `index` places ahead of the write
/// position, loading the read position again only when the cached one does
/// not show room for it.
fn index_is_available<W: Writer>(writer: &mut W, index: usize) -> (r: bool)
    ensures
        r == (index < free_slots(
            final(writer).spec_write_capacity(),
            final(writer).spec_write_position(),
            final(writer).spec_cached_read_position(),
        )),
        final(writer).spec_write_position() == old(writer).spec_write_position(),
        final(writer).spec_write_capacity() == old(writer).spec_write_capacity(),
        index < free_slots(
            old(writer).spec_write_capacity(),
            old(writer).spec_write_position(),
            old(writer).spec_cached_read_position(),
        ) ==> *final(writer) == *old(writer),
        *final(writer) == *old(writer) || *final(writer) == old(writer).spec_cache_read_position(
            final(writer).spec_cached_read_position(),
        ),
{
    if index < writer.cached_writes_available() {
        return true;
    }
    if index < writer.real_writes_available() {
        return true;
    }
    false
}

/// The values written ahead of `read_position` fill the write capacity.
fn full(read_position: usize, write_position: usize, write_capacity: usize) -> (r: bool)
    ensures
        r == (used_slots(write_position, read_position) >= write_capacity),
{
    write_position.saturating_sub(read_position) >= write_capacity
}

/// Moving the write position forward over `amount` of the values that can
/// be written leaves room for `amount` fewer, as long as the writer is not
/// behind the read position it saw.
pub proof fn lemma_advance_consumes_writes(
    write_capacity: usize,
    write_position: usize,
    read_position: usize,
    amount: usize,
)
    requires
        read_position <= write_position,
        amount <= free_slots(write_capacity, write_position, read_position),
        write_position + amount <= usize::MAX,
    ensures
        free_slots(write_capacity, (write_position + amount) as usize, read_position) == free_slots(
            write_capacity,
            write_position,
            read_position,
        ) - amount,
{
}

/// When no more was written than the write capacity allows, a write is
/// available exactly when the room left is not 0.
pub proof fn lemma_write_available_iff_room(
    write_capacity: usize,
    write_position: usize,
    read_position: usize,
)
    requires
        used_slots(write_position, read_position) <= write_capacity,
    ensures
        (used_slots(write_position, read_position) < write_capacity) == (free_slots(
            write_capacity,
            write_position,
            read_position,
        ) > 0),
{
}

/// When a reader and a writer see the same positions, with the write
/// position at most the write capacity ahead of the read position, the
/// values the reader can read and the room the writer can write make up the
/// write capacity.
pub proof fn lemma_reads_and_writes_share_capacity(
    write_capacity: usize,
    read_position: usize,
    write_position: usize,
)
    requires
        read_position <= write_position <= read_position + write_capacity,
    ensures
        position_distance(read_position, write_position) + free_slots(
            write_capacity,
            write_position,
            read_position,
        ) == write_capacity,
{
}

/// The read and write positions are in order: the writer is not behind the
/// reader, nor more than the write capacity ahead of it.
pub open spec fn positions_in_order(write_capacity: int, read_position: int, write_position: int) -> bool {
    read_position <= write_position <= read_position + write_capacity
}

/// A reader that advances over no more values than its cached write
/// position shows keeps the shared positions in order, and its read
/// position does not go back. The cached write position is one the writer
/// published, so it is not ahead of the shared one.
pub proof fn lemma_checked_read_advance_keeps_order(
    write_capacity: usize,
    read_position: usize,
    write_position: usize,
    cached_write_position: usize,
    amount: usize,
)
    requires
        positions_in_order(write_capacity as int, read_position as int, write_position as int),
        read_position <= cached_write_position <= write_position,
        amount <= position_distance(read_position, cached_write_position),
    ensures
        read_position + amount <= usize::MAX,
        read_position <= read_position + amount,
        positions_in_order(
            write_capacity as int,
            read_position + amount,
            write_position as int,
        ),
{
}

/// A writer that advances over no more room than its cached read position
/// shows keeps the shared positions in order, and its write position does
/// not go back. The cached read position is one the reader published, so it
/// is not ahead of the shared one, and the writer kept its own view in
/// order.
pub proof fn lemma_checked_write_advance_keeps_order(
    write_capacity: usize,
    read_position: usize,
    write_position: usize,
    cached_read_position: usize,
    amount: usize,
)
    requires
        positions_in_order(write_capacity as int, read_position as int, write_position as int),
        positions_in_order(
            write_capacity as int,
            cached_read_position as int,
            write_position as int,
        ),
        cached_read_position <= read_position,
        amount <= free_slots(write_capacity, write_position, cached_read_position),
    ensures
        write_position <= write_position + amount,
        positions_in_order(
            write_capacity as int,
            read_position as int,
            write_position + amount,
        ),
{
}

/// Writer for a single-channel buffer.
#[verifier::reject_recursive_types(T)]
#[derive(Debug)]
pub struct RingWriter<T: Copy> {
    buffer: Arc<RingBuf<T>>,
    cached_read_pos: usize,
    cached_write_pos: usize,
}

impl<T: Copy> RingWriter<T> {
    /// The buffer shared with the reader.
    pub closed spec fn ring(&self) -> RingBuf<T> {
        *self.buffer
    }
}

impl<T: Copy + Default> Writer for RingWriter<T> {
    closed spec fn spec_write_position(&self) -> usize {
        self.cached_write_pos
    }

    closed spec fn spec_write_capacity(&self) -> usize {
        self.ring().spec_write_capacity() as usize
    }

    closed spec fn spec_cached_read_position(&self) -> usize {
        self.cached_read_pos
    }

    closed spec fn spec_cache_read_position(self, read_position: usize) -> Self {
        RingWriter { cached_read_pos: read_position, ..self }
    }

    fn write_position(&self) -> (r: usize) {
        self.cached_write_pos
    }

    fn write_capacity(&self) -> (r: usize) {
        self.buffer.write_capacity()
    }

    fn real_read_position(&mut self) -> (r: usize) {
        let read_position = self.buffer.read_position();
        self.cached_read_pos = read_position;
        read_position
    }

    fn cached_read_position(&self) -> (r: usize) {
        self.cached_read_pos
    }

    /// Publishes the new write position to the buffer. This writer alone
    /// moves the write position, so its own count is the published one.
    fn advance_write_position_by(&mut self, amount: usize)
        ensures
            final(self).ring() == old(self).ring(),
    {
        let _published = self.buffer.advance_write_position_by(amount);
        self.cached_write_pos = self.cached_write_pos + amount;
    }
}

impl<T: Default + Copy> RingWriter<T> {
    /// A writer of `buffer` at position 0, with 0 as its cached read
    /// position.
    pub(crate) fn new(buffer: Arc<RingBuf<T>>) -> (r: Self)
        requires
            buffer.wf(),
        ensures
            r.ring() == *buffer,
            r.spec_write_position() == 0,
            r.spec_cached_read_position() == 0,
            r.spec_write_capacity() == buffer.spec_write_capacity(),
    {
        proof {
            buffer.lemma_capacities_fit();
        }
        RingWriter { buffer, cached_read_pos: 0, cached_write_pos: 0 }
    }

    /// Writes a value at the current write position.
    pub fn write(&self, value: T) {
        let write_position = self.write_position();
        self.write_at_index(write_position, value);
    }

    /// Writes a value at or ahead of the current write position.
    /// `index` is relative to the current write position and must be below
    /// the number of values that can be written as this writer last loaded
    /// it; calling `real_writes_available` loads it again.
    pub fn write_forward(&mut self, index: usize, value: T)
        requires
            old(self).spec_write_position() + index <= usize::MAX,
            index < free_slots(
                old(self).spec_write_capacity(),
                old(self).spec_write_position(),
                old(self).spec_cached_read_position(),
            ),
        ensures
            *final(self) == *old(self),
    {
        let available = index_is_available(self, index);
        assert(available);
        self.write_forward_unchecked(index, value);
    }

    /// Writes a value at or ahead of the current write position
    /// without checking that it can be written. `index` is relative to the
    /// current write position.
    pub fn write_forward_unchecked(&self, index: usize, value: T)
        requires
            self.spec_write_position() + index <= usize::MAX,
    {
        let index = self.forward_position(index);
        self.write_at_index(index, value);
    }

    /// The position `index` places ahead of the write position.
    pub fn forward_position(&self, index: usize) -> (r: usize)
        requires
            self.spec_write_position() + index <= usize::MAX,
        ensures
            r == self.spec_write_position() + index,
    {
        self.write_position() + index
    }

    fn write_at_index(&self, index: usize, value: T) {
        self.buffer.write_at_index(index, value);
    }

    /// Replaces the value at the current write position by
    /// `update` applied to it.
    pub fn mutate<F: FnOnce(T) -> T>(&mut self, update: F)
        requires
            forall|v: T| update.requires((v,)),
        ensures
            *final(self) == *old(self),
    {
        let index = self.write_position();
        self.mutate_at_index(index, update);
    }

    /// Replaces the value at or ahead of the current write
    /// position by `update` applied to it. `index` is relative to the
    /// current write position and must be below the number of values that
    /// can be written as this writer last loaded it; calling
    /// `real_writes_available` loads it again.
    pub fn mutate_forward<F: FnOnce(T) -> T>(&mut self, index: usize, update: F)
        requires
            forall|v: T| update.requires((v,)),
            old(self).spec_write_position() + index <= usize::MAX,
            index < free_slots(
                old(self).spec_write_capacity(),
                old(self).spec_write_position(),
                old(self).spec_cached_read_position(),
            ),
        ensures
            *final(self) == *old(self),
    {
        let available = index_is_available(self, index);
        assert(available);
        self.mutate_forward_unchecked(index, update);
    }

    /// Replaces the value at or ahead of the current write
    /// position by `update` applied to it, without checking that it can be
    /// written. `index` is relative to the current write position.
    pub fn mutate_forward_unchecked<F: FnOnce(T) -> T>(&mut self, index: usize, update: F)
        requires
            forall|v: T| update.requires((v,)),
            old(self).spec_write_position() + index <= usize::MAX,
        ensures
            *final(self) == *old(self),
    {
        let index = self.forward_position(index);
        self.mutate_at_index(index, update);
    }

    fn mutate_at_index<F: FnOnce(T) -> T>(&mut self, index: usize, update: F)
        requires
            forall|v: T| update.requires((v,)),
        ensures
            *final(self) == *old(self),
    {
        self.buffer.mutate_at_index(index, update);
    }

    /// Returns true if the reader has been dropped, meaning no further reads
    /// will occur in the ring buffer.
    pub fn is_closed(&self) -> bool {
        closed_for_count(handle_count(&self.buffer))
    }
}

/// Writer for a multi-channel buffer.
#[verifier::reject_recursive_types(T)]
#[derive(Debug)]
pub struct MultiRingWriter<T: Copy> {
    buffer: Arc<MultiRingBuf<T>>,
    cached_read_pos: usize,
    cached_write_pos: usize,
}

impl<T: Copy> MultiRingWriter<T> {
    /// The buffer shared with the reader.
    pub closed spec fn ring(&self) -> MultiRingBuf<T> {
        *self.buffer
    }

    /// Position `index` of `channel` fits in a `usize` once the channel's
    /// start is added to it.
    pub open spec fn channel_index_fits(&self, channel: usize, index: int) -> bool {
        channel * self.ring().spec_channel_len() + index <= usize::MAX
    }
}

impl<T: Copy + Default> Writer for MultiRingWriter<T> {
    closed spec fn spec_write_position(&self) -> usize {
        self.cached_write_pos
    }

    closed spec fn spec_write_capacity(&self) -> usize {
        self.ring().spec_write_capacity() as usize
    }

    closed spec fn spec_cached_read_position(&self) -> usize {
        self.cached_read_pos
    }

    closed spec fn spec_cache_read_position(self, read_position: usize) -> Self {
        MultiRingWriter { cached_read_pos: read_position, ..self }
    }

    fn write_position(&self) -> (r: usize) {
        self.cached_write_pos
    }

    fn write_capacity(&self) -> (r: usize) {
        self.buffer.write_capacity()
    }

    fn real_read_position(&mut self) -> (r: usize) {
        let read_position = self.buffer.read_position();
        self.cached_read_pos = read_position;
        read_position
    }

    fn cached_read_position(&self) -> (r: usize) {
        self.cached_read_pos
    }

    /// Publishes the new write position to the buffer. This writer alone
    /// moves the write position, so its own count is the published one.
    fn advance_write_position_by(&mut self, amount: usize)
        ensures
            final(self).ring() == old(self).ring(),
    {
        let _published = self.buffer.advance_write_position_by(amount);
        self.cached_write_pos = self.cached_write_pos + amount;
    }
}

impl<T: Default + Copy> MultiRingWriter<T> {
    /// A writer of `buffer` at position 0, with 0 as its cached read
    /// position.
    pub(crate) fn new(buffer: Arc<MultiRingBuf<T>>) -> (r: Self)
        requires
            buffer.wf(),
        ensures
            r.ring() == *buffer,
            r.spec_write_position() == 0,
            r.spec_cached_read_position() == 0,
            r.spec_write_capacity() == buffer.spec_write_capacity(),
    {
        proof {
            buffer.lemma_capacities_fit();
        }
        MultiRingWriter { buffer, cached_read_pos: 0, cached_write_pos: 0 }
    }

    /// Writes a value of `channel` at the current write position.
    pub fn write(&self, channel: usize, value: T)
        requires
            self.channel_index_fits(channel, self.spec_write_position() as int),
    {
        let write_position = self.write_position();
        self.write_at_index(channel, write_position, value);
    }

    /// Writes a value of `channel` at or ahead of the current write position.
    /// `index` is relative to the current write position and must be below
    /// the number of values that can be written as this writer last loaded
    /// it; calling `real_writes_available` loads it again.
    pub fn write_forward(&mut self, channel: usize, index: usize, value: T)
        requires
            old(self).spec_write_position() + index <= usize::MAX,
            old(self).channel_index_fits(channel, old(self).spec_write_position() + index),
            index < free_slots(
                old(self).spec_write_capacity(),
                old(self).spec_write_position(),
                old(self).spec_cached_read_position(),
            ),
        ensures
            *final(self) == *old(self),
    {
        let available = index_is_available(self, index);
        assert(available);
        self.write_forward_unchecked(channel, index, value);
    }

    /// Writes a value of `channel` at or ahead of the current write position
    /// without checking that it can be written. `index` is relative to the
    /// current write position.
    pub fn write_forward_unchecked(&self, channel: usize, index: usize, value: T)
        requires
            self.spec_write_position() + index <= usize::MAX,
            self.channel_index_fits(channel, self.spec_write_position() + index),
    {
        let index = self.forward_position(index);
        self.write_at_index(channel, index, value);
    }

    /// The position `index` places ahead of the write position.
    pub fn forward_position(&self, index: usize) -> (r: usize)
        requires
            self.spec_write_position() + index <= usize::MAX,
        ensures
            r == self.spec_write_position() + index,
    {
        self.write_position() + index
    }

    fn write_at_index(&self, channel: usize, index: usize, value: T)
        requires
            self.channel_index_fits(channel, index as int),
    {
        self.buffer.write_at_index(channel, index, value);
    }

    /// Replaces the value of `channel` at the current write position by
    /// `update` applied to it.
    pub fn mutate<F: FnOnce(T) -> T>(&mut self, channel: usize, update: F)
        requires
            forall|v: T| update.requires((v,)),
            old(self).channel_index_fits(channel, old(self).spec_write_position() as int),
        ensures
            *final(self) == *old(self),
    {
        let index = self.write_position();
        self.mutate_at_index(channel, index, update);
    }

    /// Replaces the value of `channel` at or ahead of the current write
    /// position by `update` applied to it. `index` is relative to the
    /// current write position and must be below the number of values that
    /// can be written as this writer last loaded it; calling
    /// `real_writes_available` loads it again.
    pub fn mutate_forward<F: FnOnce(T) -> T>(&mut self, channel: usize, index: usize, update: F)
        requires
            forall|v: T| update.requires((v,)),
            old(self).spec_write_position() + index <= usize::MAX,
            old(self).channel_index_fits(channel, old(self).spec_write_position() + index),
            index < free_slots(
                old(self).spec_write_capacity(),
                old(self).spec_write_position(),
                old(self).spec_cached_read_position(),
            ),
        ensures
            *final(self) == *old(self),
    {
        let available = index_is_available(self, index);
        assert(available);
        self.mutate_forward_unchecked(channel, index, update);
    }

    /// Replaces the value of `channel` at or ahead of the current write
    /// position by `update` applied to it, without checking that it can be
    /// written. `index` is relative to the current write position.
    pub fn mutate_forward_unchecked<F: FnOnce(T) -> T>(&mut self, channel: usize, index: usize, update: F)
        requires
            forall|v: T| update.requires((v,)),
            old(self).spec_write_position() + index <= usize::MAX,
            old(self).channel_index_fits(channel, old(self).spec_write_position() + index),
        ensures
            *final(self) == *old(self),
    {
        let index = self.forward_position(index);
        self.mutate_at_index(channel, index, update);
    }

    fn mutate_at_index<F: FnOnce(T) -> T>(&mut self, channel: usize, index: usize, update: F)
        requires
            forall|v: T| update.requires((v,)),
            old(self).channel_index_fits(channel, index as int),
        ensures
            *final(self) == *old(self),
    {
        self.buffer.mutate_at_index(channel, index, update);
    }

    /// Returns true if the reader has been dropped, meaning no further reads
    /// will occur in the ring buffer.
    pub fn is_closed(&self) -> bool {
        closed_for_count(handle_count(&self.buffer))
    }

    /// Returns the number of channels in this multi-channel ring buffer.
    pub fn channels(&self) -> (r: usize)
        ensures
            r == self.ring().spec_channels(),
    {
        self.buffer.channels()
    }
}

} // verus!
