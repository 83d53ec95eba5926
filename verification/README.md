# wreath

A single-producer single-consumer ring buffer, verified with Verus.

A `ring_buf` or `multi_ring_buf` call allocates a buffer whose length is the
least power of two that holds the requested read and write capacities, and
returns a reader and a writer that share it. The room left over becomes extra
write capacity. A multi-channel buffer holds several rings that share one read
position, one write position and one pair of capacities.

Layout:

- `src/buf/storage.rs`: the cells, and the masking that wraps a free-running
  position into them.
- `src/buf/mod.rs`: the shared buffers, their sizing, and the proofs that
  positions within a window of the capacities never share a cell.
- `src/reader/mod.rs`, `src/writer/mod.rs`: the `Reader` and `Writer` traits,
  their cached availability checks, and the two kinds of handles.
- `src/sync.rs`: the shared-memory primitives from `std` and `crossbeam_utils`,
  with the contracts that the proofs rely on.

Values pass from the writer to the reader through `crossbeam_utils`'s
`AtomicCell`, and positions through atomic counters. What the other thread
has done is not known to the proofs, so no contract states which value a read
returns. The contracts state the handles' positions and counts, the position
each read or write works at (`forward_position`, `backward_position`,
`relative_position`), the cell a position wraps to (`HeapArray::index`, which
every access goes through and which stays inside the buffer), and which
indexes the checked reads and writes accept.
