//! The shared-memory primitives that the reader and the writer of a ring
//! buffer use to talk to each other. They come from `std` and from
//! `crossbeam_utils`; what each one promises is stated below. Values that
//! travel through them are written by one thread and read by another, so no
//! contract here says what such a value is.
use crossbeam_utils::atomic::AtomicCell;
use crossbeam_utils::CachePadded;
use std::sync::atomic::AtomicUsize;
use std::sync::Arc;
use vstd::prelude::*;

verus! {

#[verifier::external_type_specification]
#[verifier::external_body]
#[verifier::reject_recursive_types(T)]
pub struct ExCachePadded<T>(CachePadded<T>);

#[verifier::external_type_specification]
#[verifier::external_body]
#[verifier::reject_recursive_types(T)]
pub struct ExAtomicCell<T>(AtomicCell<T>);

/// `crossbeam_utils::CachePadded::new` pads a value to a cache line. Its
/// result is opaque here: nothing is claimed of it.
pub assume_specification<T>[ CachePadded::<T>::new ](t: T) -> CachePadded<T>;

/// `crossbeam_utils::atomic::AtomicCell::new` makes a cell holding `val`.
/// Nothing is claimed of the result, since the cell is shared between
/// threads.
pub assume_specification<T>[ AtomicCell::<T>::new ](val: T) -> AtomicCell<T>;

/// `crossbeam_utils::atomic::AtomicCell::load` reads the cell. Another
/// thread may have stored into it at any time, so nothing is claimed of the
/// value.
pub assume_specification<T: Copy>[ AtomicCell::<T>::load ](cell: &AtomicCell<T>) -> T;

/// `crossbeam_utils::atomic::AtomicCell::store` writes the cell. Its effect
/// is only visible through later loads, of which nothing is claimed.
pub assume_specification<T>[ AtomicCell::<T>::store ](cell: &AtomicCell<T>, val: T);

/// Calls `Deref::deref` of `crossbeam_utils::CachePadded`, which hands out
/// the padded counter. The counter's value is shared between threads, so
/// nothing is claimed of it.
#[verifier::external_body]
pub fn padded_counter(counter: &CachePadded<AtomicUsize>) -> &AtomicUsize {
    counter
}

/// Calls `Arc::clone`, which makes another pointer to the same allocation:
/// both point to the same value.
#[verifier::external_body]
pub fn share<T>(shared: &Arc<T>) -> (r: Arc<T>)
    ensures
        *r == **shared,
{
    Arc::clone(shared)
}

/// Calls `Arc::strong_count`. The count changes when the other handle is
/// dropped on another thread, so nothing is claimed of it.
#[verifier::external_body]
pub fn handle_count<T>(shared: &Arc<T>) -> usize {
    Arc::strong_count(shared)
}

} // verus!
