//! Readers: the consuming half of a ring buffer. The availability checks
//! work from a cached write position and load the shared one only when the
//! cache does not show enough.
use crate::buf::{closed_for_count, MultiRingBuf, RingBuf};
use crate::sync::handle_count;
use std::sync::Arc;
use vstd::prelude::*;

verus! {

/// How far position `to` lies ahead of position `from`. Positions are
/// counters that wrap around past `usize::MAX`, so a `to` behind `from`
/// gives the wrapped-around distance.
pub open spec fn position_distance(from: usize, to: usize) -> usize {
    if from <= to {
        (to - from) as usize
    } else {
        (to - from + usize::MAX + 1) as usize
    }
}

/// `index` relative to the read position is within what a reader may read:
/// not as far back as the read capacity, and ahead by less than one of the
/// two counts of values available.
pub open spec fn signed_index_in_range(
    index: isize,
    read_capacity: usize,
    available: usize,
    refreshed_available: usize,
) -> bool {
    &&& index > -(read_capacity as int)
    &&& (index < (available as isize) || index < (refreshed_available as isize))
}

/// `position + offset`, held to the range of `usize`.
pub open spec fn spec_saturating_add_signed(position: usize, offset: isize) -> usize {
    if position + offset < 0 {
        0
    } else if position + offset > usize::MAX {
        usize::MAX
    } else {
        (position + offset) as usize
    }
}

/// Adds a signed `offset` to `position`, saturating at the bounds of
/// `usize`.
pub fn saturating_add_signed(position: usize, offset: isize) -> (r: usize)
    ensures
        r == spec_saturating_add_signed(position, offset),
{
    if offset >= 0 {
        position.saturating_add(offset as usize)
    } else {
        let back: usize = ((-(offset + 1)) as usize) + 1;
        position.saturating_sub(back)
    }
}

/// Shared functionality of ring buffer readers.
///
/// A reader owns the read position: it alone moves it. It caches the write
/// position that it last loaded from the buffer, which the writer moves.
pub trait Reader: Sized {
    /// The reader's read position.
    spec fn spec_read_position(&self) -> usize;

    /// The number of values kept behind the read position.
    spec fn spec_read_capacity(&self) -> usize;

    /// The write position as the reader last loaded it.
    spec fn spec_cached_write_position(&self) -> usize;

    /// This reader once it has cached `write_position` as the write
    /// position, and changed nothing else.
    spec fn spec_cache_write_position(self, write_position: usize) -> Self;

    /// Gets the current (real) read position within the ring buffer.
    fn read_position(&self) -> (r: usize)
        ensures
            r == self.spec_read_position(),
    ;

    /// Gets the read capacity of the ring buffer, the number of values from
    /// the read position the ring buffer will save from being overwritten.
    fn read_capacity(&self) -> (r: usize)
        ensures
            r == self.spec_read_capacity(),
    ;

    /// Loads the real write position from the ring buffer, caching the
    /// result within this reader. The writer moves it, so its value is
    /// whatever the writer last published.
    fn real_write_position(&mut self) -> (r: usize)
        ensures
            *final(self) == old(self).spec_cache_write_position(r),
            final(self).spec_cached_write_position() == r,
            final(self).spec_read_position() == old(self).spec_read_position(),
            final(self).spec_read_capacity() == old(self).spec_read_capacity(),
    ;

    /// Returns the cached write position, avoiding an atomic load.
    fn cached_write_position(&self) -> (r: usize)
        ensures
            r == self.spec_cached_write_position(),
    ;

    /// Moves the read position forward by `amount`.
    fn advance_read_position_by(&mut self, amount: usize)
        requires
            old(self).spec_read_position() + amount <= usize::MAX,
        ensures
            final(self).spec_read_position() == old(self).spec_read_position() + amount,
            final(self).spec_cached_write_position() == old(self).spec_cached_write_position(),
            final(self).spec_read_capacity() == old(self).spec_read_capacity(),
    ;

    /// Moves the read position forward by 1.
    fn advance_read_position(&mut self)
        requires
            old(self).spec_read_position() + 1 <= usize::MAX,
        ensures
            final(self).spec_read_position() == old(self).spec_read_position() + 1,
            final(self).spec_cached_write_position() == old(self).spec_cached_write_position(),
            final(self).spec_read_capacity() == old(self).spec_read_capacity(),
    {
        self.advance_read_position_by(1);
    }

    /// The number of values available for reading, from a freshly loaded
    /// write position, which is cached within this reader.
    fn real_reads_available(&mut self) -> (r: usize)
        ensures
            r == position_distance(
                final(self).spec_read_position(),
                final(self).spec_cached_write_position(),
            ),
            *final(self) == old(self).spec_cache_write_position(
                final(self).spec_cached_write_position(),
            ),
            final(self).spec_read_position() == old(self).spec_read_position(),
            final(self).spec_read_capacity() == old(self).spec_read_capacity(),
    {
        let read_position = self.read_position();
        let real_write_position = self.real_write_position();
        reads_available(read_position, real_write_position)
    }

    /// The number of values available for reading, from the cached write
    /// position. This avoids an atomic load.
    fn cached_reads_available(&self) -> (r: usize)
        ensures
            r == position_distance(self.spec_read_position(), self.spec_cached_write_position()),
    {
        let cached_write_position = self.cached_write_position();
        reads_available(self.read_position(), cached_write_position)
    }

    /// Returns true if at least one value is available for reading. The
    /// write position is loaded again only when the cached one shows none.
    fn read_is_available(&mut self) -> (r: bool)
        ensures
            r == (final(self).spec_read_position() < final(self).spec_cached_write_position()),
            final(self).spec_read_position() == old(self).spec_read_position(),
            final(self).spec_read_capacity() == old(self).spec_read_capacity(),
            old(self).spec_read_position() < old(self).spec_cached_write_position()
                ==> *final(self) == *old(self),
            *final(self) == *old(self) || *final(self) == old(self).spec_cache_write_position(
                final(self).spec_cached_write_position(),
            ),
    {
        let read_position = self.read_position();
        if empty(read_position, self.cached_write_position()) {
            let real_write_position = self.real_write_position();
            return !empty(read_position, real_write_position);
        }
        true
    }

    /// Returns true if `amount` values are available for reading. The write
    /// position is loaded again only when the cached one shows too few.
    fn reads_are_available(&mut self, amount: usize) -> (r: bool)
        ensures
            r == (position_distance(
                final(self).spec_read_position(),
                final(self).spec_cached_write_position(),
            ) >= amount),
            final(self).spec_read_position() == old(self).spec_read_position(),
            final(self).spec_read_capacity() == old(self).spec_read_capacity(),
            position_distance(old(self).spec_read_position(), old(self).spec_cached_write_position())
                >= amount ==> *final(self) == *old(self),
            *final(self) == *old(self) || *final(self) == old(self).spec_cache_write_position(
                final(self).spec_cached_write_position(),
            ),
    {
        if self.cached_reads_available() < amount {
            return self.real_reads_available() >= amount;
        }
        true
    }
}

/// The number of values between `read_position` and `write_position`.
fn reads_available(read_position: usize, write_position: usize) -> (r: usize)
    ensures
        r == position_distance(read_position, write_position),
{
    write_position.wrapping_sub(read_position)
}

/// Returns true if a value is available `index` places ahead of the read
/// position, loading the write position again only when the cached one
/// does not show it.
fn index_is_available<R: Reader>(reader: &mut R, index: usize) -> (r: bool)
    ensures
        r == (index < position_distance(
            final(reader).spec_read_position(),
            final(reader).spec_cached_write_position(),
        )),
        final(reader).spec_read_position() == old(reader).spec_read_position(),
        final(reader).spec_read_capacity() == old(reader).spec_read_capacity(),
        index < position_distance(
            old(reader).spec_read_position(),
            old(reader).spec_cached_write_position(),
        ) ==> *final(reader) == *old(reader),
            *final(reader) == *old(reader) || *final(reader) == old(reader).spec_cache_write_position(
                final(reader).spec_cached_write_position(),
            ),
{
    if index < reader.cached_reads_available() {
        return true;
    }
    if index < reader.real_reads_available() {
        return true;
    }
    false
}

/// Returns true if `index`, relative to the read position, is neither as far
/// back as the read capacity nor at or past the values available. The write
/// position is loaded again only when the cached one does not show the
/// index.
fn index_is_available_signed<R: Reader>(reader: &mut R, index: isize) -> (r: bool)
    requires
        old(reader).spec_read_capacity() <= isize::MAX,
    ensures
        r == signed_index_in_range(
            index,
            old(reader).spec_read_capacity(),
            position_distance(
                old(reader).spec_read_position(),
                old(reader).spec_cached_write_position(),
            ),
            position_distance(
                final(reader).spec_read_position(),
                final(reader).spec_cached_write_position(),
            ),
        ),
        final(reader).spec_read_position() == old(reader).spec_read_position(),
        final(reader).spec_read_capacity() == old(reader).spec_read_capacity(),
        (index <= -(old(reader).spec_read_capacity() as int) || index < (position_distance(
            old(reader).spec_read_position(),
            old(reader).spec_cached_write_position(),
        ) as isize)) ==> *final(reader) == *old(reader),
            *final(reader) == *old(reader) || *final(reader) == old(reader).spec_cache_write_position(
                final(reader).spec_cached_write_position(),
            ),
{
    let read_capacity = reader.read_capacity() as isize;
    if index <= -read_capacity {
        return false;
    }
    if index < reader.cached_reads_available() as isize {
        return true;
    }
    if index < reader.real_reads_available() as isize {
        return true;
    }
    false
}

/// No value lies between `read_position` and `write_position`.
fn empty(read_position: usize, write_position: usize) -> (r: bool)
    ensures
        r == (read_position >= write_position),
{
    read_position >= write_position
}

/// Moving the read position forward over `amount` of the values available
/// leaves `amount` fewer values available.
pub proof fn lemma_advance_consumes_reads(read_position: usize, write_position: usize, amount: usize)
    requires
        amount <= position_distance(read_position, write_position),
        read_position + amount <= usize::MAX,
    ensures
        position_distance((read_position + amount) as usize, write_position) == position_distance(
            read_position,
            write_position,
        ) - amount,
{
}

/// When the reader is not ahead of the write position it saw, a read is
/// available exactly when the number of values available is not 0.
pub proof fn lemma_read_available_iff_values_available(read_position: usize, write_position: usize)
    requires
        read_position <= write_position,
    ensures
        (read_position < write_position) == (position_distance(read_position, write_position) > 0),
{
}

/// Reader for a single-channel buffer.
#[verifier::reject_recursive_types(T)]
#[derive(Debug)]
pub struct RingReader<T: Copy> {
    buffer: Arc<RingBuf<T>>,
    cached_read_pos: usize,
    cached_write_pos: usize,
}

impl<T: Copy> RingReader<T> {
    /// The buffer shared with the writer.
    pub closed spec fn ring(&self) -> RingBuf<T> {
        *self.buffer
    }
}

impl<T: Copy + Default> Reader for RingReader<T> {
    closed spec fn spec_read_position(&self) -> usize {
        self.cached_read_pos
    }

    closed spec fn spec_read_capacity(&self) -> usize {
        self.ring().spec_read_capacity() as usize
    }

    closed spec fn spec_cached_write_position(&self) -> usize {
        self.cached_write_pos
    }

    closed spec fn spec_cache_write_position(self, write_position: usize) -> Self {
        RingReader { cached_write_pos: write_position, ..self }
    }

    fn read_position(&self) -> (r: usize) {
        self.cached_read_pos
    }

    fn read_capacity(&self) -> (r: usize) {
        self.buffer.read_capacity()
    }

    fn real_write_position(&mut self) -> (r: usize) {
        let write_position = self.buffer.write_position();
        self.cached_write_pos = write_position;
        write_position
    }

    fn cached_write_position(&self) -> (r: usize) {
        self.cached_write_pos
    }

    /// Publishes the new read position to the buffer. This reader alone
    /// moves the read position, so its own count is the published one.
    fn advance_read_position_by(&mut self, amount: usize)
        ensures
            final(self).ring() == old(self).ring(),
    {
        let _published = self.buffer.advance_read_position_by(amount);
        self.cached_read_pos = self.cached_read_pos + amount;
    }
}

impl<T: Default + Copy> RingReader<T> {
    /// A reader of `buffer` at position 0, with 0 as its cached write
    /// position.
    pub(crate) fn new(buffer: Arc<RingBuf<T>>) -> (r: Self)
        requires
            buffer.wf(),
        ensures
            r.ring() == *buffer,
            r.spec_read_position() == 0,
            r.spec_cached_write_position() == 0,
            r.spec_read_capacity() == buffer.spec_read_capacity(),
    {
        proof {
            buffer.lemma_capacities_fit();
        }
        RingReader { buffer, cached_read_pos: 0, cached_write_pos: 0 }
    }

    /// Reads the value at the current read position.
    pub fn read(&self) -> T {
        let read_position = self.read_position();
        self.read_at_index(read_position)
    }

    /// Reads a value at or ahead of the current read position. `index` is
    /// relative to the current read position and must be below the number
    /// of values available as this reader last loaded it; calling
    /// `real_reads_available` loads it again.
    pub fn read_forward(&mut self, index: usize) -> (r: T)
        requires
            old(self).spec_read_position() + index <= usize::MAX,
            index < position_distance(
                old(self).spec_read_position(),
                old(self).spec_cached_write_position(),
            ),
        ensures
            *final(self) == *old(self),
    {
        let available = index_is_available(self, index);
        assert(available);
        self.read_forward_unchecked(index)
    }

    /// The position `index` places ahead of the read position.
    pub fn forward_position(&self, index: usize) -> (r: usize)
        requires
            self.spec_read_position() + index <= usize::MAX,
        ensures
            r == self.spec_read_position() + index,
    {
        self.read_position() + index
    }

    /// The position `index` places behind the read position, or 0 when
    /// that is before position 0.
    pub fn backward_position(&self, index: usize) -> (r: usize)
        ensures
            r == self.spec_read_position().saturating_sub(index),
    {
        self.read_position().saturating_sub(index)
    }

    /// The position `index` places from the read position, held to the
    /// range of `usize`.
    pub fn relative_position(&self, index: isize) -> (r: usize)
        ensures
            r == spec_saturating_add_signed(self.spec_read_position(), index),
    {
        saturating_add_signed(self.read_position(), index)
    }

    /// Reads a value at or ahead of the current read position without
    /// checking that it is available. `index` is relative to the current
    /// read position.
    pub fn read_forward_unchecked(&self, index: usize) -> T
        requires
            self.spec_read_position() + index <= usize::MAX,
    {
        let index = self.forward_position(index);
        self.read_at_index(index)
    }

    /// Reads a value at or behind the current read position, within the
    /// read capacity. `index` is relative to the current read position.
    pub fn read_backward(&self, index: usize) -> T
        requires
            index < self.spec_read_capacity(),
    {
        self.read_backward_unchecked(index)
    }

    /// Reads a value at or behind the current read position without
    /// checking that it is within the read capacity. `index` is relative to
    /// the current read position; a position before 0 reads position 0.
    pub fn read_backward_unchecked(&self, index: usize) -> T {
        let index = self.backward_position(index);
        self.read_at_index(index)
    }

    /// Reads a value with a signed index relative to the current read
    /// position: a negative index reads backward and a positive index reads
    /// forward. `index` must not be as far back as the read capacity and
    /// must be below the number of values available as this reader last
    /// loaded it; calling `real_reads_available` loads it again.
    pub fn read_relative(&mut self, index: isize) -> (r: T)
        requires
            old(self).spec_read_capacity() <= isize::MAX,
            signed_index_in_range(
                index,
                old(self).spec_read_capacity(),
                position_distance(
                    old(self).spec_read_position(),
                    old(self).spec_cached_write_position(),
                ),
                position_distance(
                    old(self).spec_read_position(),
                    old(self).spec_cached_write_position(),
                ),
            ),
        ensures
            *final(self) == *old(self),
    {
        let available = index_is_available_signed(self, index);
        assert(available);
        self.read_relative_unchecked(index)
    }

    /// Reads a value with a signed index relative to the current read
    /// position without checking it: a negative index reads backward and a
    /// positive index reads forward, the position saturating at the bounds
    /// of `usize`.
    pub fn read_relative_unchecked(&self, index: isize) -> T {
        let index = self.relative_position(index);
        self.read_at_index(index)
    }

    fn read_at_index(&self, index: usize) -> T {
        self.buffer.read_at_index(index)
    }

    /// Returns true if the writer has been dropped, meaning no further
    /// writes will occur in the ring buffer.
    pub fn is_closed(&self) -> bool {
        closed_for_count(handle_count(&self.buffer))
    }
}

/// Reader for a multi-channel buffer.
#[verifier::reject_recursive_types(T)]
#[derive(Debug)]
pub struct MultiRingReader<T: Copy> {
    buffer: Arc<MultiRingBuf<T>>,
    cached_read_pos: usize,
    cached_write_pos: usize,
}

impl<T: Copy> MultiRingReader<T> {
    /// The buffer shared with the writer.
    pub closed spec fn ring(&self) -> MultiRingBuf<T> {
        *self.buffer
    }

    /// Position `index` of `channel` fits in a `usize` once the channel's
    /// start is added to it.
    pub open spec fn channel_index_fits(&self, channel: usize, index: int) -> bool {
        channel * self.ring().spec_channel_len() + index <= usize::MAX
    }
}

impl<T: Copy + Default> Reader for MultiRingReader<T> {
    closed spec fn spec_read_position(&self) -> usize {
        self.cached_read_pos
    }

    closed spec fn spec_read_capacity(&self) -> usize {
        self.ring().spec_read_capacity() as usize
    }

    closed spec fn spec_cached_write_position(&self) -> usize {
        self.cached_write_pos
    }

    closed spec fn spec_cache_write_position(self, write_position: usize) -> Self {
        MultiRingReader { cached_write_pos: write_position, ..self }
    }

    fn read_position(&self) -> (r: usize) {
        self.cached_read_pos
    }

    fn read_capacity(&self) -> (r: usize) {
        self.buffer.read_capacity()
    }

    fn real_write_position(&mut self) -> (r: usize) {
        let write_position = self.buffer.write_position();
        self.cached_write_pos = write_position;
        write_position
    }

    fn cached_write_position(&self) -> (r: usize) {
        self.cached_write_pos
    }

    /// Publishes the new read position to the buffer. This reader alone
    /// moves the read position, so its own count is the published one.
    fn advance_read_position_by(&mut self, amount: usize)
        ensures
            final(self).ring() == old(self).ring(),
    {
        let _published = self.buffer.advance_read_position_by(amount);
        self.cached_read_pos = self.cached_read_pos + amount;
    }
}

impl<T: Default + Copy> MultiRingReader<T> {
    /// A reader of `buffer` at position 0, with 0 as its cached write
    /// position.
    pub(crate) fn new(buffer: Arc<MultiRingBuf<T>>) -> (r: Self)
        requires
            buffer.wf(),
        ensures
            r.ring() == *buffer,
            r.spec_read_position() == 0,
            r.spec_cached_write_position() == 0,
            r.spec_read_capacity() == buffer.spec_read_capacity(),
    {
        proof {
            buffer.lemma_capacities_fit();
        }
        MultiRingReader { buffer, cached_read_pos: 0, cached_write_pos: 0 }
    }

    /// Reads the value of `channel` at the current read position.
    pub fn read(&self, channel: usize) -> T
        requires
            self.channel_index_fits(channel, self.spec_read_position() as int),
    {
        let read_position = self.read_position();
        self.read_at_index(channel, read_position)
    }

    /// Reads a value of `channel` at or ahead of the current read position.
    /// `index` is relative to the current read position and must be below
    /// the number of values available as this reader last loaded it;
    /// calling `real_reads_available` loads it again.
    pub fn read_forward(&mut self, channel: usize, index: usize) -> (r: T)
        requires
            old(self).channel_index_fits(channel, old(self).spec_read_position() + index),
            index < position_distance(
                old(self).spec_read_position(),
                old(self).spec_cached_write_position(),
            ),
        ensures
            *final(self) == *old(self),
    {
        let available = index_is_available(self, index);
        assert(available);
        self.read_forward_unchecked(channel, index)
    }

    /// The position `index` places ahead of the read position.
    pub fn forward_position(&self, index: usize) -> (r: usize)
        requires
            self.spec_read_position() + index <= usize::MAX,
        ensures
            r == self.spec_read_position() + index,
    {
        self.read_position() + index
    }

    /// The position `index` places behind the read position, or 0 when
    /// that is before position 0.
    pub fn backward_position(&self, index: usize) -> (r: usize)
        ensures
            r == self.spec_read_position().saturating_sub(index),
    {
        self.read_position().saturating_sub(index)
    }

    /// The position `index` places from the read position, held to the
    /// range of `usize`.
    pub fn relative_position(&self, index: isize) -> (r: usize)
        ensures
            r == spec_saturating_add_signed(self.spec_read_position(), index),
    {
        saturating_add_signed(self.read_position(), index)
    }

    /// Reads a value of `channel` at or ahead of the current read position
    /// without checking that it is available. `index` is relative to the
    /// current read position.
    pub fn read_forward_unchecked(&self, channel: usize, index: usize) -> T
        requires
            self.channel_index_fits(channel, self.spec_read_position() + index),
    {
        let index = self.forward_position(index);
        self.read_at_index(channel, index)
    }

    /// Reads a value of `channel` at or behind the current read position,
    /// within the read capacity. `index` is relative to the current read
    /// position.
    pub fn read_backward(&self, channel: usize, index: usize) -> T
        requires
            index < self.spec_read_capacity(),
            self.channel_index_fits(
                channel,
                self.spec_read_position().saturating_sub(index) as int,
            ),
    {
        self.read_backward_unchecked(channel, index)
    }

    /// Reads a value of `channel` at or behind the current read position
    /// without checking that it is within the read capacity. `index` is
    /// relative to the current read position; a position before 0 reads
    /// position 0.
    pub fn read_backward_unchecked(&self, channel: usize, index: usize) -> T
        requires
            self.channel_index_fits(
                channel,
                self.spec_read_position().saturating_sub(index) as int,
            ),
    {
        let index = self.backward_position(index);
        self.read_at_index(channel, index)
    }

    /// Reads a value of `channel` with a signed index relative to the
    /// current read position: a negative index reads backward and a positive
    /// index reads forward. `index` must not be as far back as the read
    /// capacity and must be below the number of values available as this
    /// reader last loaded it; calling `real_reads_available` loads it again.
    pub fn read_relative(&mut self, channel: usize, index: isize) -> (r: T)
        requires
            old(self).spec_read_capacity() <= isize::MAX,
            old(self).channel_index_fits(
                channel,
                spec_saturating_add_signed(old(self).spec_read_position(), index) as int,
            ),
            signed_index_in_range(
                index,
                old(self).spec_read_capacity(),
                position_distance(
                    old(self).spec_read_position(),
                    old(self).spec_cached_write_position(),
                ),
                position_distance(
                    old(self).spec_read_position(),
                    old(self).spec_cached_write_position(),
                ),
            ),
        ensures
            *final(self) == *old(self),
    {
        let available = index_is_available_signed(self, index);
        assert(available);
        self.read_relative_unchecked(channel, index)
    }

    /// Reads a value of `channel` with a signed index relative to the
    /// current read position without checking it: a negative index reads
    /// backward and a positive index reads forward, the position saturating
    /// at the bounds of `usize`.
    pub fn read_relative_unchecked(&self, channel: usize, index: isize) -> T
        requires
            self.channel_index_fits(
                channel,
                spec_saturating_add_signed(self.spec_read_position(), index) as int,
            ),
    {
        let index = self.relative_position(index);
        self.read_at_index(channel, index)
    }

    fn read_at_index(&self, channel: usize, index: usize) -> T
        requires
            self.channel_index_fits(channel, index as int),
    {
        self.buffer.read_at_index(channel, index)
    }

    /// Returns true if the writer has been dropped, meaning no further
    /// writes will occur in the ring buffer.
    pub fn is_closed(&self) -> bool {
        closed_for_count(handle_count(&self.buffer))
    }

    /// Returns the number of channels in this multi-channel ring buffer.
    pub fn channels(&self) -> (r: usize)
        ensures
            r == self.ring().spec_channels(),
    {
        self.buffer.channels()
    }
}

} // verus!
