use wreath::{
    closed_for_count, multi_ring_buf, position_after, ring_buf, saturating_add_signed, Reader,
    Writer,
};

#[test]
fn readme_example_round_trip() {
    // A read capacity of 4 and a write capacity of 8 take 16 cells, so the
    // write capacity grows to 12.
    let (mut reader, mut writer) = ring_buf::<usize>(4, 8);
    let writes = writer.real_writes_available();
    assert_eq!(writes, 12);
    for i in 0..writes {
        writer.write_forward(i, i);
    }
    writer.advance_write_position_by(writes);

    let reads = reader.real_reads_available();
    assert_eq!(reads, 12);
    for i in 0..reads {
        assert_eq!(reader.read_forward(i), i);
    }
    reader.advance_read_position_by(reads);
    assert_eq!(reader.read_position(), 12);
    assert_eq!(reader.cached_reads_available(), 0);
}

#[test]
fn capacities_fill_a_power_of_two() {
    let (reader, writer) = ring_buf::<u8>(3, 5);
    assert_eq!(reader.read_capacity(), 3);
    assert_eq!(writer.write_capacity(), 5);
    let (reader, writer) = ring_buf::<u8>(3, 6);
    assert_eq!(reader.read_capacity(), 3);
    assert_eq!(writer.write_capacity(), 13);
    let (reader, writer) = ring_buf::<u8>(0, 0);
    assert_eq!(reader.read_capacity(), 0);
    assert_eq!(writer.write_capacity(), 1);
}

#[test]
fn fresh_handles_start_at_zero() {
    let (reader, writer) = ring_buf::<u8>(2, 2);
    assert_eq!(reader.read_position(), 0);
    assert_eq!(reader.cached_write_position(), 0);
    assert_eq!(writer.write_position(), 0);
    assert_eq!(writer.cached_read_position(), 0);
}

#[test]
fn reads_see_writes_only_once_published() {
    let (mut reader, mut writer) = ring_buf::<u32>(2, 2);
    writer.write(7);
    assert!(!reader.read_is_available());
    writer.advance_write_position();
    // The cache still shows nothing, so the write position is loaded again.
    assert_eq!(reader.cached_reads_available(), 0);
    assert!(reader.read_is_available());
    assert_eq!(reader.cached_write_position(), 1);
    assert_eq!(reader.read(), 7);
    assert_eq!(reader.read_forward(0), 7);
    assert!(reader.reads_are_available(1));
    assert!(!reader.reads_are_available(2));
}

#[test]
fn values_behind_the_read_position_are_kept() {
    let (mut reader, mut writer) = ring_buf::<u32>(2, 2);
    writer.write_forward(0, 10);
    writer.write_forward(1, 11);
    writer.advance_write_position_by(2);
    assert_eq!(reader.real_reads_available(), 2);
    reader.advance_read_position_by(2);

    assert_eq!(writer.real_writes_available(), 2);
    writer.write_forward(0, 12);
    writer.write_forward(1, 13);
    writer.advance_write_position_by(2);

    assert_eq!(reader.read_backward(0), 12);
    assert_eq!(reader.read_backward(1), 11);
    assert_eq!(reader.read_backward_unchecked(2), 10);
    assert_eq!(reader.read_relative(-1), 11);
    assert_eq!(reader.read_relative(0), 12);
    assert_eq!(reader.read_relative(1), 13);
    assert_eq!(reader.read_relative_unchecked(-2), 10);
    assert_eq!(reader.read_forward_unchecked(1), 13);
}

#[test]
fn backward_reads_keep_consumed_values() {
    let (mut reader, mut writer) = ring_buf::<usize>(4, 8);
    for i in 0..12 {
        writer.write_forward(i, i);
    }
    writer.advance_write_position_by(12);
    let n = reader.real_reads_available();
    reader.advance_read_position_by(n);
    // Nothing is left unread, yet the read capacity keeps the last values.
    assert_eq!(reader.real_reads_available(), 0);
    assert_eq!(reader.read_backward(1), 11);
    assert_eq!(reader.read_backward(3), 9);
    assert_eq!(reader.read_relative(-1), 11);
    assert_eq!(reader.read_relative(-3), 9);
}

#[test]
fn relative_reads_after_everything_is_consumed() {
    let (mut reader, mut writer) = ring_buf::<usize>(4, 4);
    writer.write_forward(0, 5);
    writer.write_forward(1, 6);
    writer.advance_write_position_by(2);
    reader.real_reads_available();
    reader.advance_read_position_by(2);
    assert_eq!(reader.read_relative(-1), 6);
    assert_eq!(reader.read_relative(-2), 5);
}

#[test]
fn backward_reads_before_position_zero_saturate() {
    let (reader, _writer) = ring_buf::<u32>(4, 4);
    assert_eq!(reader.read_backward(0), 0);
    assert_eq!(reader.read_backward(3), 0);
    assert_eq!(reader.read_backward_unchecked(3), 0);
}

#[test]
fn writer_stops_at_write_capacity() {
    let (mut reader, mut writer) = ring_buf::<u32>(0, 4);
    assert_eq!(writer.write_capacity(), 4);
    assert!(writer.writes_are_available(4));
    assert!(!writer.writes_are_available(5));
    for i in 0..4 {
        writer.write_forward(i, i as u32);
    }
    writer.advance_write_position_by(4);
    assert_eq!(writer.cached_writes_available(), 0);
    assert!(!writer.write_is_available());

    reader.advance_read_position_by(1);
    // The cached read position is stale until the writer loads it again.
    assert_eq!(writer.cached_writes_available(), 0);
    assert!(writer.write_is_available());
    assert_eq!(writer.cached_read_position(), 1);
    assert_eq!(writer.cached_writes_available(), 1);
}

#[test]
fn mutate_updates_the_value_in_place() {
    let (mut reader, mut writer) = ring_buf::<u32>(1, 3);
    writer.write(5);
    writer.mutate(|v| v * 2);
    writer.mutate_forward(1, |v| v + 9);
    writer.mutate_forward_unchecked(2, |v| v + 4);
    writer.write_forward_unchecked(3, 8);
    writer.advance_write_position_by(4);
    assert_eq!(reader.real_reads_available(), 4);
    assert_eq!(reader.read_forward(0), 10);
    assert_eq!(reader.read_forward(1), 9);
    assert_eq!(reader.read_forward(2), 4);
    assert_eq!(reader.read_forward(3), 8);
}

#[test]
fn closing_one_side_is_seen_by_the_other() {
    let (reader, writer) = ring_buf::<u8>(1, 1);
    assert!(!reader.is_closed());
    assert!(!writer.is_closed());
    drop(writer);
    assert!(reader.is_closed());

    let (reader, writer) = multi_ring_buf::<u8>(2, 1, 1);
    assert!(!writer.is_closed());
    drop(reader);
    assert!(writer.is_closed());
}

#[test]
fn multi_channel_capacities() {
    // 3 channels of 1 + 1 take 6 cells; 8 are allocated and the 2 spare
    // cells do not make a whole extra cell per channel.
    let (reader, writer) = multi_ring_buf::<u32>(3, 1, 1);
    assert_eq!(reader.channels(), 3);
    assert_eq!(writer.channels(), 3);
    assert_eq!(reader.read_capacity(), 1);
    assert_eq!(writer.write_capacity(), 1);
    // 2 channels of 2 + 3 take 10 cells; 16 are allocated and each channel
    // gets 3 more cells of write capacity.
    let (reader, writer) = multi_ring_buf::<u32>(2, 2, 3);
    assert_eq!(reader.read_capacity(), 2);
    assert_eq!(writer.write_capacity(), 6);
}

#[test]
fn multi_channel_round_trip() {
    let (mut reader, mut writer) = multi_ring_buf::<u32>(3, 2, 2);
    let writes = writer.real_writes_available();
    assert_eq!(writes, 3);
    for position in 0..writes {
        for channel in 0..3 {
            writer.write_forward(channel, position, (channel * 100 + position) as u32);
        }
    }
    writer.advance_write_position_by(writes);
    assert_eq!(reader.real_reads_available(), 3);
    for position in 0..3 {
        for channel in 0..3 {
            assert_eq!(
                reader.read_forward(channel, position),
                (channel * 100 + position) as u32
            );
        }
    }
    reader.advance_read_position_by(2);
    for channel in 0..3 {
        assert_eq!(reader.read(channel), (channel * 100 + 2) as u32);
        assert_eq!(reader.read_backward(channel, 1), (channel * 100 + 1) as u32);
        assert_eq!(reader.read_relative(channel, -1), (channel * 100 + 1) as u32);
        assert_eq!(reader.read_relative_unchecked(channel, -2), (channel * 100) as u32);
        assert_eq!(reader.read_backward_unchecked(channel, 2), (channel * 100) as u32);
        assert_eq!(reader.read_forward_unchecked(channel, 0), (channel * 100 + 2) as u32);
    }
}

#[test]
fn multi_channel_mutate_and_write() {
    let (mut reader, mut writer) = multi_ring_buf::<u32>(2, 0, 2);
    writer.write(0, 1);
    writer.write(1, 2);
    writer.mutate(1, |v| v + 40);
    writer.mutate_forward(0, 1, |v| v + 5);
    writer.mutate_forward_unchecked(1, 1, |v| v + 6);
    writer.write_forward_unchecked(0, 1, 9);
    writer.advance_write_position_by(2);
    assert_eq!(reader.real_reads_available(), 2);
    assert_eq!(reader.read(0), 1);
    assert_eq!(reader.read(1), 42);
    assert_eq!(reader.read_forward(0, 1), 9);
    assert_eq!(reader.read_forward(1, 1), 6);
}

#[test]
fn saturating_add_signed_values() {
    assert_eq!(saturating_add_signed(5, -3), 2);
    assert_eq!(saturating_add_signed(5, -10), 0);
    assert_eq!(saturating_add_signed(3, 4), 7);
    assert_eq!(saturating_add_signed(usize::MAX - 1, 5), usize::MAX);
    assert_eq!(saturating_add_signed(0, isize::MIN), 0);
    assert_eq!(saturating_add_signed(usize::MAX, isize::MIN), usize::MAX - (1usize << (usize::BITS - 1)));
}

fn assert_send<S: Send>(_: &S) {}

#[test]
fn handles_can_move_to_other_threads() {
    let (reader, writer) = ring_buf::<u64>(2, 2);
    assert_send(&reader);
    assert_send(&writer);
    let (reader, writer) = multi_ring_buf::<u64>(2, 2, 2);
    assert_send(&reader);
    assert_send(&writer);
}

#[test]
fn closed_for_count_values() {
    assert!(closed_for_count(0));
    assert!(closed_for_count(1));
    assert!(!closed_for_count(2));
    assert!(!closed_for_count(3));
}

#[test]
fn position_after_wraps() {
    assert_eq!(position_after(3, 4), 7);
    assert_eq!(position_after(usize::MAX, 1), 0);
    assert_eq!(position_after(usize::MAX - 1, 3), 1);
}

#[test]
fn positions_that_reads_and_writes_use() {
    let (mut reader, mut writer) = ring_buf::<u32>(2, 6);
    writer.advance_write_position_by(5);
    assert_eq!(writer.forward_position(2), 7);
    reader.real_reads_available();
    reader.advance_read_position_by(3);
    assert_eq!(reader.forward_position(1), 4);
    assert_eq!(reader.backward_position(2), 1);
    assert_eq!(reader.backward_position(5), 0);
    assert_eq!(reader.relative_position(-2), 1);
    assert_eq!(reader.relative_position(4), 7);
    assert_eq!(reader.relative_position(isize::MIN), 0);
    let (mut reader, mut writer) = multi_ring_buf::<u32>(2, 1, 3);
    writer.advance_write_position_by(2);
    assert_eq!(writer.forward_position(1), 3);
    reader.real_reads_available();
    reader.advance_read_position_by(2);
    assert_eq!(reader.forward_position(1), 3);
    assert_eq!(reader.backward_position(1), 1);
    assert_eq!(reader.relative_position(-1), 1);
}

#[test]
fn handles_format_for_debugging() {
    let (reader, writer) = ring_buf::<u8>(1, 1);
    assert!(format!("{:?}", reader).contains("RingReader"));
    assert!(format!("{:?}", writer).contains("RingWriter"));
    let (reader, writer) = multi_ring_buf::<u8>(2, 1, 1);
    assert!(format!("{:?}", reader).contains("MultiRingReader"));
    assert!(format!("{:?}", writer).contains("MultiRingWriter"));
}
