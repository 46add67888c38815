//! Running byte and item totals for one column of staged entries, used to
//! pre-size the destination buffers before an immutable array is built.

use vstd::prelude::*;

verus! {

/// Exact running totals over the staged entries of a single-column storage:
/// item count, cumulative prefix bytes, cumulative key bytes and cumulative
/// raw value bytes.
#[derive(Clone, Copy, Debug)]
pub struct SingleColumnSizeTracker {
    pub num_items: usize,
    pub prefix_size: usize,
    pub key_size: usize,
    pub value_size: usize,
}

impl SingleColumnSizeTracker {
    /// An empty storage has zero items and zero bytes.
    pub fn new() -> (t: Self)
        ensures
            t.num_items == 0,
            t.prefix_size == 0,
            t.key_size == 0,
            t.value_size == 0,
    {
        SingleColumnSizeTracker { num_items: 0, prefix_size: 0, key_size: 0, value_size: 0 }
    }

    pub fn get_num_items(&self) -> (n: usize)
        ensures
            n == self.num_items,
    {
        self.num_items
    }

    pub fn get_prefix_size(&self) -> (n: usize)
        ensures
            n == self.prefix_size,
    {
        self.prefix_size
    }

    pub fn get_key_size(&self) -> (n: usize)
        ensures
            n == self.key_size,
    {
        self.key_size
    }

    pub fn get_value_size(&self) -> (n: usize)
        ensures
            n == self.value_size,
    {
        self.value_size
    }

    pub fn increment_item_count(&mut self)
        requires
            old(self).num_items + 1 <= usize::MAX,
        ensures
            *final(self) == (SingleColumnSizeTracker { num_items: (old(self).num_items + 1) as usize, ..*old(self) }),
    {
        self.num_items = self.num_items + 1;
    }

    pub fn decrement_item_count(&mut self)
        requires
            old(self).num_items >= 1,
        ensures
            *final(self) == (SingleColumnSizeTracker { num_items: (old(self).num_items - 1) as usize, ..*old(self) }),
    {
        self.num_items = self.num_items - 1;
    }

    pub fn add_prefix_size(&mut self, size: usize)
        requires
            old(self).prefix_size + size <= usize::MAX,
        ensures
            *final(self) == (SingleColumnSizeTracker { prefix_size: (old(self).prefix_size + size) as usize, ..*old(self) }),
    {
        self.prefix_size = self.prefix_size + size;
    }

    pub fn subtract_prefix_size(&mut self, size: usize)
        requires
            size <= old(self).prefix_size,
        ensures
            *final(self) == (SingleColumnSizeTracker { prefix_size: (old(self).prefix_size - size) as usize, ..*old(self) }),
    {
        self.prefix_size = self.prefix_size - size;
    }

    pub fn add_key_size(&mut self, size: usize)
        requires
            old(self).key_size + size <= usize::MAX,
        ensures
            *final(self) == (SingleColumnSizeTracker { key_size: (old(self).key_size + size) as usize, ..*old(self) }),
    {
        self.key_size = self.key_size + size;
    }

    pub fn subtract_key_size(&mut self, size: usize)
        requires
            size <= old(self).key_size,
        ensures
            *final(self) == (SingleColumnSizeTracker { key_size: (old(self).key_size - size) as usize, ..*old(self) }),
    {
        self.key_size = self.key_size - size;
    }

    pub fn add_value_size(&mut self, size: usize)
        requires
            old(self).value_size + size <= usize::MAX,
        ensures
            *final(self) == (SingleColumnSizeTracker { value_size: (old(self).value_size + size) as usize, ..*old(self) }),
    {
        self.value_size = self.value_size + size;
    }

    pub fn subtract_value_size(&mut self, size: usize)
        requires
            size <= old(self).value_size,
        ensures
            *final(self) == (SingleColumnSizeTracker { value_size: (old(self).value_size - size) as usize, ..*old(self) }),
    {
        self.value_size = self.value_size - size;
    }
}

} // verus!
