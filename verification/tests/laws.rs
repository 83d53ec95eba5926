use wreath::{multi_ring_buf, ring_buf, HeapArray, Reader, Writer};

#[test]
fn consecutive_positions_use_every_cell_once() {
    let array = HeapArray::<u8>::new(8);
    for start in [0usize, 5, 13, usize::MAX - 7] {
        let mut seen = [false; 8];
        for offset in 0..8 {
            let cell = array.index(start + offset);
            assert!(cell < 8);
            assert!(!seen[cell]);
            seen[cell] = true;
        }
    }
}

#[test]
fn channels_do_not_share_cells_within_a_channel_length() {
    // 3 channels of 2 + 2 cells: 16 cells, channel length 5.
    let array = HeapArray::<u8>::new(16);
    let channel_len = 5;
    for start in [0usize, 4, 11, 100] {
        let mut seen = [false; 16];
        for channel in 0..3 {
            for offset in 0..channel_len {
                let cell = array.multi_index(channel_len, channel, start + offset);
                assert!(!seen[cell]);
                seen[cell] = true;
            }
        }
    }
}

#[test]
fn kept_values_survive_a_full_write_window() {
    // Read capacity 2, write capacity 6: 8 cells.
    let (mut reader, mut writer) = ring_buf::<u32>(2, 6);
    for round in 0..5u32 {
        let writes = writer.real_writes_available();
        for i in 0..writes {
            writer.write_forward(i, round * 100 + i as u32);
        }
        writer.advance_write_position_by(writes);
        let reads = reader.real_reads_available();
        assert_eq!(reads, writes);
        reader.advance_read_position_by(reads);
        // The last two values read are still behind the read position.
        assert!(writer.writes_are_available(6));
        assert_eq!(reader.read_backward_unchecked(1), round * 100 + writes as u32 - 1);
        assert_eq!(reader.read_backward_unchecked(2), round * 100 + writes as u32 - 2);
    }
}

#[test]
fn advancing_consumes_what_was_available() {
    let (mut reader, mut writer) = ring_buf::<u8>(1, 7);
    assert_eq!(writer.real_writes_available(), 7);
    writer.advance_write_position_by(3);
    assert_eq!(writer.cached_writes_available(), 4);
    assert_eq!(reader.real_reads_available(), 3);
    reader.advance_read_position_by(2);
    assert_eq!(reader.cached_reads_available(), 1);
    // Reads and writes together make up the write capacity.
    assert_eq!(reader.real_reads_available() + writer.real_writes_available(), 7);
}

#[test]
fn read_available_matches_values_available() {
    let (mut reader, mut writer) = multi_ring_buf::<u8>(2, 1, 3);
    assert!(!reader.read_is_available());
    assert_eq!(reader.cached_reads_available(), 0);
    writer.advance_write_position();
    assert!(reader.read_is_available());
    assert!(reader.cached_reads_available() > 0);
    assert!(writer.write_is_available());
    assert!(writer.cached_writes_available() > 0);
    writer.advance_write_position_by(2);
    assert!(!writer.write_is_available());
    assert_eq!(writer.cached_writes_available(), 0);
}

#[test]
fn array_length_is_kept_by_every_access() {
    let array = HeapArray::<u32>::new(8);
    array.write_at_index(3, 1);
    assert_eq!(array.len(), 8);
    let _ = array.read_at_index(11);
    array.mutate_at_index(5, |v| v + 1);
    array.multi_write_at_index(2, 3, 1, 4);
    let _ = array.multi_read_at_index(2, 3, 1);
    array.multi_mutate_at_index(2, 1, 9, |v| v * 2);
    assert_eq!(array.len(), 8);
}

#[test]
fn checked_advances_keep_positions_in_order() {
    let (mut reader, mut writer) = ring_buf::<u8>(2, 6);
    for step in 1..20usize {
        let writes = writer.real_writes_available().min(step % 7);
        writer.advance_write_position_by(writes);
        let reads = reader.real_reads_available().min(step % 5);
        reader.advance_read_position_by(reads);
        let read_position = reader.read_position();
        let write_position = writer.write_position();
        assert!(read_position <= write_position);
        assert!(write_position <= read_position + writer.write_capacity());
    }
}
