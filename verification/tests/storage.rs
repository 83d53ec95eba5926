use wreath::{power_of_two_ceiling, remainder_pow2, wrap_index_pow2, HeapArray};

#[test]
fn remainder_works() {
    for pow2 in 1..31 {
        let capacity = 2usize.pow(pow2);
        for index in 0..capacity {
            let wrapped = remainder_pow2(index, capacity);
            assert!(wrapped < capacity)
        }
    }
}

#[test]
fn remainder_of_power_of_two_is_modulo() {
    assert_eq!(remainder_pow2(13, 8), 5);
    assert_eq!(remainder_pow2(16, 8), 0);
    assert_eq!(remainder_pow2(usize::MAX, 16), 15);
    assert_eq!(remainder_pow2(7, 1), 0);
}

#[test]
fn remainder_of_other_divisor_is_masked() {
    // 6 - 1 = 0b101, so 7 & 0b101 = 0b101
    assert_eq!(remainder_pow2(7, 6), 5);
    assert_eq!(remainder_pow2(2, 6), 0);
}

#[test]
fn wrap_index_matches_remainder() {
    assert_eq!(wrap_index_pow2(21, 16), 5);
    assert_eq!(wrap_index_pow2(3, 4), 3);
}

#[test]
fn power_of_two_ceiling_values() {
    assert_eq!(power_of_two_ceiling(0), 1);
    assert_eq!(power_of_two_ceiling(1), 1);
    assert_eq!(power_of_two_ceiling(2), 2);
    assert_eq!(power_of_two_ceiling(3), 4);
    assert_eq!(power_of_two_ceiling(5), 8);
    assert_eq!(power_of_two_ceiling(12), 16);
    assert_eq!(power_of_two_ceiling(16), 16);
    let top = 1usize << (usize::BITS - 1);
    assert_eq!(power_of_two_ceiling(top - 1), top);
    assert_eq!(power_of_two_ceiling(top), top);
    assert_eq!(power_of_two_ceiling(top + 1), 0);
    assert_eq!(power_of_two_ceiling(usize::MAX), 0);
}

#[test]
fn heap_array_new_has_default_values() {
    let array = HeapArray::<u32>::new(8);
    assert_eq!(array.len(), 8);
    for i in 0..8 {
        assert_eq!(array.read_at_index(i), 0);
    }
}

#[test]
fn heap_array_index_wraps() {
    let array = HeapArray::<u8>::new(8);
    assert_eq!(array.index(3), 3);
    assert_eq!(array.index(8), 0);
    assert_eq!(array.index(19), 3);
}

#[test]
fn heap_array_multi_index_offsets_channels() {
    let array = HeapArray::<u8>::new(8);
    assert_eq!(array.multi_index(3, 0, 1), 1);
    assert_eq!(array.multi_index(3, 2, 1), 7);
    assert_eq!(array.multi_index(3, 2, 2), 0);
}

#[test]
fn heap_array_write_then_read_wraps() {
    let array = HeapArray::<u32>::new(4);
    array.write_at_index(6, 42);
    assert_eq!(array.read_at_index(2), 42);
    assert_eq!(array.read_at_index(10), 42);
    array.mutate_at_index(2, |v| v + 1);
    assert_eq!(array.read_at_index(6), 43);
}

#[test]
fn heap_array_multi_write_then_read() {
    let array = HeapArray::<u32>::new(8);
    array.multi_write_at_index(3, 1, 2, 7);
    assert_eq!(array.read_at_index(5), 7);
    assert_eq!(array.multi_read_at_index(3, 1, 2), 7);
    array.multi_mutate_at_index(3, 1, 2, |v| v * 3);
    assert_eq!(array.multi_read_at_index(3, 0, 5), 21);
}
