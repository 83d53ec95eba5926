//! A single-producer single-consumer ring buffer library with multi-channel
//! buffers and a read capacity that keeps values available behind the read
//! position.
//!
//! A buffer's length is the least power of two that holds the requested
//! read and write capacities; any room left over becomes extra write
//! capacity. Positions are free-running counters that are wrapped into the
//! buffer by masking.
pub mod buf;
pub mod reader;
mod sync;
pub mod writer;

pub use buf::storage::{remainder_pow2, wrap_index_pow2, HeapArray};
pub use buf::{
    closed_for_count, multi_ring_buf, position_after, power_of_two_ceiling, ring_buf, MultiRingBuf,
    RingBuf,
};
pub use reader::{saturating_add_signed, MultiRingReader, Reader, RingReader};
pub use writer::{MultiRingWriter, RingWriter, Writer};
