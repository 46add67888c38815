//! The writeable-value capability implementations, one per value type
//! family: variable-length strings, fixed-width scalars and booleans.

use vstd::prelude::*;
use crate::delta::{ArrowWriteableValue, BlockDelta, BlockStorage};
use crate::key::{CompositeKeySpec, KeyWrapper};
use crate::sizing::{offset_buffer_size, offset_buffer_size_spec, round_up_to_alignment,
    round_up_to_alignment_spec};
use crate::storage::SingleColumnStorage;

verus! {

impl ArrowWriteableValue for String {
    open spec fn storage_matches(storage: &BlockStorage) -> bool {
        match storage {
            BlockStorage::Str(_) => true,
            _ => false,
        }
    }

    open spec fn storage_view(storage: &BlockStorage) -> Seq<(CompositeKeySpec, Seq<char>)> {
        match storage {
            BlockStorage::Str(s) => s@,
            _ => Seq::empty(),
        }
    }

    open spec fn storage_wf(storage: &BlockStorage) -> bool {
        match storage {
            BlockStorage::Str(s) => s.wf(),
            _ => false,
        }
    }

    open spec fn offset_size_spec(n: nat) -> nat {
        offset_buffer_size_spec(n)
    }

    open spec fn validity_size_spec(n: nat) -> nat {
        0
    }

    fn offset_size(item_count: usize) -> (r: usize) {
        offset_buffer_size(item_count)
    }

    /// Nulls are not supported for string columns.
    fn validity_size(item_count: usize) -> (r: usize) {
        0
    }

    fn get_delta_builder() -> (s: BlockStorage) {
        BlockStorage::Str(SingleColumnStorage::new())
    }

    fn add(prefix: &str, key: KeyWrapper, value: Self, delta: &mut BlockDelta) {
        match &mut delta.builder {
            BlockStorage::Str(s) => s.add(prefix, key, value),
            _ => vstd::pervasive::unreached(),
        }
    }

    fn delete(prefix: &str, key: &KeyWrapper, delta: &mut BlockDelta) {
        match &mut delta.builder {
            BlockStorage::Str(s) => s.delete(prefix, key),
            _ => vstd::pervasive::unreached(),
        }
    }
}

impl ArrowWriteableValue for u32 {
    open spec fn storage_matches(storage: &BlockStorage) -> bool {
        match storage {
            BlockStorage::UInt32(_) => true,
            _ => false,
        }
    }

    open spec fn storage_view(storage: &BlockStorage) -> Seq<(CompositeKeySpec, u32)> {
        match storage {
            BlockStorage::UInt32(s) => s@,
            _ => Seq::empty(),
        }
    }

    open spec fn storage_wf(storage: &BlockStorage) -> bool {
        match storage {
            BlockStorage::UInt32(s) => s.wf(),
            _ => false,
        }
    }

    open spec fn offset_size_spec(n: nat) -> nat {
        0
    }

    open spec fn validity_size_spec(n: nat) -> nat {
        0
    }

    /// Fixed-width types need no offsets buffer.
    fn offset_size(item_count: usize) -> (r: usize) {
        0
    }

    /// Nulls are not supported for scalar columns.
    fn validity_size(item_count: usize) -> (r: usize) {
        0
    }

    fn get_delta_builder() -> (s: BlockStorage) {
        BlockStorage::UInt32(SingleColumnStorage::new())
    }

    fn add(prefix: &str, key: KeyWrapper, value: Self, delta: &mut BlockDelta) {
        match &mut delta.builder {
            BlockStorage::UInt32(s) => s.add(prefix, key, value),
            _ => vstd::pervasive::unreached(),
        }
    }

    fn delete(prefix: &str, key: &KeyWrapper, delta: &mut BlockDelta) {
        match &mut delta.builder {
            BlockStorage::UInt32(s) => s.delete(prefix, key),
            _ => vstd::pervasive::unreached(),
        }
    }
}

impl ArrowWriteableValue for bool {
    open spec fn storage_matches(storage: &BlockStorage) -> bool {
        match storage {
            BlockStorage::Bool(_) => true,
            _ => false,
        }
    }

    open spec fn storage_view(storage: &BlockStorage) -> Seq<(CompositeKeySpec, bool)> {
        match storage {
            BlockStorage::Bool(s) => s@,
            _ => Seq::empty(),
        }
    }

    open spec fn storage_wf(storage: &BlockStorage) -> bool {
        match storage {
            BlockStorage::Bool(s) => s.wf(),
            _ => false,
        }
    }

    open spec fn offset_size_spec(n: nat) -> nat {
        0
    }

    /// One bit per item, padded to the buffer alignment.
    open spec fn validity_size_spec(n: nat) -> nat {
        round_up_to_alignment_spec((n + 7) / 8)
    }

    /// Fixed-width types need no offsets buffer.
    fn offset_size(item_count: usize) -> (r: usize) {
        0
    }

    fn validity_size(item_count: usize) -> (r: usize) {
        round_up_to_alignment((item_count + 7) / 8)
    }

    fn get_delta_builder() -> (s: BlockStorage) {
        BlockStorage::Bool(SingleColumnStorage::new())
    }

    fn add(prefix: &str, key: KeyWrapper, value: Self, delta: &mut BlockDelta) {
        match &mut delta.builder {
            BlockStorage::Bool(s) => s.add(prefix, key, value),
            _ => vstd::pervasive::unreached(),
        }
    }

    fn delete(prefix: &str, key: &KeyWrapper, delta: &mut BlockDelta) {
        match &mut delta.builder {
            BlockStorage::Bool(s) => s.delete(prefix, key),
            _ => vstd::pervasive::unreached(),
        }
    }
}

} // verus!
