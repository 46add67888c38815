//! Byte-size computations used to pre-size the destination buffers of a
//! columnar block before any value is appended.

use vstd::prelude::*;

verus! {

/// What rounding a byte count up to the buffer alignment yields.
pub open spec fn round_up_to_alignment_spec(n: nat) -> nat {
    ((n + 63) / 64) * 64
}

/// Rounds a byte count up to the next multiple of the buffer alignment.
pub fn round_up_to_alignment(n: usize) -> (r: usize)
    requires
        n + 63 <= usize::MAX,
    ensures
        r == round_up_to_alignment_spec(n as nat),
        n <= r,
        r % 64 == 0,
{
    proof {
        assert(((n + 63) / 64) * 64 <= n + 63 && n <= ((n + 63) / 64) * 64
            && (((n + 63) / 64) * 64) % 64 == 0) by (nonlinear_arith);
    }
    ((n + 63) / 64) * 64
}

/// What the offsets buffer of a variable-length column with `n` items
/// requires: one offset per item plus a trailing offset, padded to the
/// buffer alignment.
pub open spec fn offset_buffer_size_spec(n: nat) -> nat {
    round_up_to_alignment_spec((n + 1) * 4)
}

/// Computes the padded offsets-buffer size for an `n`-item variable-length
/// column.
pub fn offset_buffer_size(n: usize) -> (r: usize)
    requires
        (n + 1) * 4 + 63 <= usize::MAX,
    ensures
        r == offset_buffer_size_spec(n as nat),
{
    round_up_to_alignment((n + 1) * 4)
}

} // verus!
