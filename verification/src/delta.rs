//! The mutable staging side: a block delta wraps exactly one tagged storage
//! variant, and every value type drives it through one uniform capability
//! trait. Calling an operation against a delta tagged for a different value
//! type is a caller contract violation, ruled out by `requires`.

use vstd::prelude::*;
use vstd::utf8::encode_utf8;
use crate::key::{CompositeKeySpec, KeyWrapper};
use crate::storage::{
    key_byte_size, spec_remove, spec_upsert, total_key_bytes, total_prefix_bytes,
    total_value_bytes, SingleColumnStorage, StorageValue,
};

verus! {

/// The closed set of storage variants, one per value type family.
pub enum BlockStorage {
    Str(SingleColumnStorage<String>),
    UInt32(SingleColumnStorage<u32>),
    Bool(SingleColumnStorage<bool>),
}

/// The mutable staging wrapper around one storage variant; the unit of
/// mutation handed to a single writer, consumed once by finalization.
pub struct BlockDelta {
    pub id: u64,
    pub builder: BlockStorage,
}

/// The uniform mutation contract every writeable value type satisfies: it
/// knows its own storage variant, how large its offset and validity buffers
/// must be, and how to upsert and delete through a delta.
pub trait ArrowWriteableValue: StorageValue {
    /// Whether `storage` is the variant tagged for this value type.
    spec fn storage_matches(storage: &BlockStorage) -> bool;

    /// The staged entries of this value type's variant.
    spec fn storage_view(storage: &BlockStorage) -> Seq<(CompositeKeySpec, Self::V)>;

    /// Whether this value type's variant is well-formed.
    spec fn storage_wf(storage: &BlockStorage) -> bool;

    /// Size of the offsets buffer for an `n`-item column.
    spec fn offset_size_spec(n: nat) -> nat;

    /// Size of the validity bitmap for an `n`-item column.
    spec fn validity_size_spec(n: nat) -> nat;

    /// Computes the offsets-buffer size; 0 for fixed-width types.
    fn offset_size(item_count: usize) -> (r: usize)
        requires
            item_count <= usize::MAX / 8,
        ensures
            r as nat == Self::offset_size_spec(item_count as nat),
    ;

    /// Computes the validity-bitmap size; 0 for types that never allow nulls.
    fn validity_size(item_count: usize) -> (r: usize)
        requires
            item_count <= usize::MAX / 8,
        ensures
            r as nat == Self::validity_size_spec(item_count as nat),
    ;

    /// An empty storage tagged for this value type.
    fn get_delta_builder() -> (s: BlockStorage)
        ensures
            Self::storage_matches(&s),
            Self::storage_wf(&s),
            Self::storage_view(&s) == Seq::<(CompositeKeySpec, Self::V)>::empty(),
    ;

    /// Upserts into the delta's storage. The delta must be tagged for this
    /// value type: a mismatch is a fatal caller error, not a recoverable
    /// condition, and is ruled out here by `requires`.
    fn add(prefix: &str, key: KeyWrapper, value: Self, delta: &mut BlockDelta)
        requires
            Self::storage_matches(&old(delta).builder),
            Self::storage_wf(&old(delta).builder),
            Self::storage_view(&old(delta).builder).len() < usize::MAX,
            total_prefix_bytes(Self::storage_view(&old(delta).builder)) + encode_utf8(prefix@).len()
                <= usize::MAX,
            total_key_bytes(Self::storage_view(&old(delta).builder)) + key_byte_size(key@)
                <= usize::MAX,
            total_value_bytes::<Self>(Self::storage_view(&old(delta).builder))
                + Self::view_byte_size(value@) <= usize::MAX,
        ensures
            Self::storage_matches(&final(delta).builder),
            Self::storage_wf(&final(delta).builder),
            Self::storage_view(&final(delta).builder) == spec_upsert(
                Self::storage_view(&old(delta).builder),
                (CompositeKeySpec { prefix: prefix@, key: key@ }),
                value@,
            ),
            final(delta).id == old(delta).id,
    ;

    /// Deletes from the delta's storage; absent keys are a silent no-op.
    /// The delta must be tagged for this value type.
    fn delete(prefix: &str, key: &KeyWrapper, delta: &mut BlockDelta)
        requires
            Self::storage_matches(&old(delta).builder),
            Self::storage_wf(&old(delta).builder),
        ensures
            Self::storage_matches(&final(delta).builder),
            Self::storage_wf(&final(delta).builder),
            Self::storage_view(&final(delta).builder) == spec_remove(
                Self::storage_view(&old(delta).builder),
                (CompositeKeySpec { prefix: prefix@, key: key@ }),
            ),
            final(delta).id == old(delta).id,
    ;
}

impl BlockDelta {
    /// Opens an empty delta for the value type `V` under a stable block id.
    pub fn new<V: ArrowWriteableValue>(id: u64) -> (d: BlockDelta)
        ensures
            V::storage_matches(&d.builder),
            V::storage_wf(&d.builder),
            V::storage_view(&d.builder) == Seq::<(CompositeKeySpec, <V as View>::V)>::empty(),
            d.id == id,
    {
        BlockDelta { id, builder: V::get_delta_builder() }
    }

    /// Upserts a value; see `ArrowWriteableValue::add`.
    pub fn add<V: ArrowWriteableValue>(&mut self, prefix: &str, key: KeyWrapper, value: V)
        requires
            V::storage_matches(&old(self).builder),
            V::storage_wf(&old(self).builder),
            V::storage_view(&old(self).builder).len() < usize::MAX,
            total_prefix_bytes(V::storage_view(&old(self).builder)) + encode_utf8(prefix@).len()
                <= usize::MAX,
            total_key_bytes(V::storage_view(&old(self).builder)) + key_byte_size(key@)
                <= usize::MAX,
            total_value_bytes::<V>(V::storage_view(&old(self).builder)) + V::view_byte_size(value@)
                <= usize::MAX,
        ensures
            V::storage_matches(&final(self).builder),
            V::storage_wf(&final(self).builder),
            V::storage_view(&final(self).builder) == spec_upsert(
                V::storage_view(&old(self).builder),
                (CompositeKeySpec { prefix: prefix@, key: key@ }),
                value@,
            ),
            final(self).id == old(self).id,
    {
        V::add(prefix, key, value, self);
    }

    /// Deletes a key; see `ArrowWriteableValue::delete`.
    pub fn delete<V: ArrowWriteableValue>(&mut self, prefix: &str, key: &KeyWrapper)
        requires
            V::storage_matches(&old(self).builder),
            V::storage_wf(&old(self).builder),
        ensures
            V::storage_matches(&final(self).builder),
            V::storage_wf(&final(self).builder),
            V::storage_view(&final(self).builder) == spec_remove(
                V::storage_view(&old(self).builder),
                (CompositeKeySpec { prefix: prefix@, key: key@ }),
            ),
            final(self).id == old(self).id,
    {
        V::delete(prefix, key, self);
    }
}

} // verus!
