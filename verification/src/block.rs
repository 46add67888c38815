//! Finalization: a finished delta is consumed, its staged entries are
//! appended in sorted order into a pre-sized arrow builder, and the result
//! is frozen into an immutable, shared columnar array paired with a field
//! descriptor and the parallel key column.

use vstd::prelude::*;
use vstd::utf8::encode_utf8;
use crate::delta::{ArrowWriteableValue, BlockDelta, BlockStorage};
use crate::key::{CompositeKey, CompositeKeySpec};
use crate::storage::{entries_sorted, lemma_totals_decompose, lemma_totals_split, spec_upsert,
    total_key_bytes, total_prefix_bytes, total_value_bytes};

verus! {

#[verifier::external_type_specification]
#[verifier::external_body]
pub struct ExField(arrow::datatypes::Field);

/// Holds the arrow builder a string column is appended into.
#[verifier::external_body]
pub struct StringColumnBuilder {
    inner: arrow::array::StringBuilder,
}

/// The values appended so far into a string column builder, in order.
pub uninterp spec fn string_builder_view(b: StringColumnBuilder) -> Seq<Seq<char>>;

/// Holds the immutable, reference-counted array a finished string column is
/// shared through; it is never mutated after creation.
#[verifier::external_body]
pub struct StringColumnArray {
    inner: std::sync::Arc<dyn arrow::array::Array>,
}

/// The values held by a finished string column, in order.
pub uninterp spec fn string_array_view(a: StringColumnArray) -> Seq<Seq<char>>;

/// Total UTF-8 bytes of a sequence of strings.
pub open spec fn chars_seq_bytes(s: Seq<Seq<char>>) -> nat
    decreases s.len(),
{
    if s.len() == 0 {
        0
    } else {
        encode_utf8(s[0]).len() + chars_seq_bytes(s.skip(1))
    }
}

proof fn lemma_chars_seq_bytes_push(s: Seq<Seq<char>>, v: Seq<char>)
    ensures
        chars_seq_bytes(s.push(v)) == chars_seq_bytes(s) + encode_utf8(v).len(),
    decreases s.len(),
{
    if s.len() == 0 {
        assert(s.push(v)[0] == v);
        assert(s.push(v).skip(1) =~= Seq::<Seq<char>>::empty());
        assert(chars_seq_bytes(Seq::<Seq<char>>::empty()) == 0);
        assert(chars_seq_bytes(s.push(v)) == encode_utf8(v).len());
    } else {
        assert(s.push(v)[0] == s[0]);
        assert(s.push(v).skip(1) =~= s.skip(1).push(v));
        lemma_chars_seq_bytes_push(s.skip(1), v);
        assert(chars_seq_bytes(s.push(v)) == encode_utf8(s[0]).len() + chars_seq_bytes(
            s.skip(1).push(v),
        ));
    }
}

proof fn lemma_value_bytes_prefix_step(s: Seq<(CompositeKeySpec, Seq<char>)>, i: int)
    requires
        0 <= i < s.len(),
    ensures
        total_value_bytes::<String>(s.subrange(0, i + 1)) == total_value_bytes::<String>(
            s.subrange(0, i),
        ) + encode_utf8(s[i].1).len(),
        total_value_bytes::<String>(s.subrange(0, i + 1)) <= total_value_bytes::<String>(s),
{
    lemma_totals_split::<String>(s, i + 1);
    let front = s.subrange(0, i + 1);
    lemma_totals_decompose::<String>(front, i);
    assert(front.subrange(0, i) =~= s.subrange(0, i));
    assert(front.subrange(i + 1, i + 1) =~= Seq::<(CompositeKeySpec, Seq<char>)>::empty());
}

/// Relies on GenericByteBuilder::with_capacity: a newly created builder,
/// pre-sized for `item_capacity` items and `data_capacity` value bytes,
/// holds no values.
#[verifier::external_body]
fn string_builder_with_capacity(item_capacity: usize, data_capacity: usize) -> (b:
    StringColumnBuilder)
    ensures
        string_builder_view(b) == Seq::<Seq<char>>::empty(),
{
    StringColumnBuilder {
        inner: arrow::array::StringBuilder::with_capacity(item_capacity, data_capacity),
    }
}

/// Relies on GenericByteBuilder::append_value: appends one value at the
/// end. It panics only when the cumulative value bytes overflow the i32
/// offsets, which the requires rules out.
#[verifier::external_body]
fn string_builder_append(b: &mut StringColumnBuilder, v: &str)
    requires
        chars_seq_bytes(string_builder_view(*old(b))) + encode_utf8(v@).len() <= 0x7fff_ffff,
    ensures
        string_builder_view(*final(b)) == string_builder_view(*old(b)).push(v@),
{
    b.inner.append_value(v);
}

/// Relies on GenericByteBuilder::finish and Array::slice: the finished
/// array holds exactly the appended values in order, and slicing to the
/// occupied length keeps them while dropping any over-allocated tail.
#[verifier::external_body]
fn string_builder_finish(b: StringColumnBuilder) -> (a: StringColumnArray)
    ensures
        string_array_view(a) == string_builder_view(b),
{
    let mut inner = b.inner;
    let arr = inner.finish();
    let len = arrow::array::Array::len(&arr);
    StringColumnArray { inner: arrow::array::Array::slice(&arr, 0, len) }
}

/// Relies on arrow's Field constructor: the descriptor of a non-nullable
/// UTF-8 value column.
#[verifier::external_body]
fn utf8_value_field() -> (f: arrow::datatypes::Field) {
    arrow::datatypes::Field::new("value", arrow::datatypes::DataType::Utf8, false)
}

/// Relies on StringArray::value: borrows the string at `i` without copying.
/// Every `StringColumnArray` is built by this module's builder, so the
/// downcast always succeeds.
#[verifier::external_body]
fn string_array_get<'a>(a: &'a StringColumnArray, i: usize) -> (s: &'a str)
    requires
        i < string_array_view(*a).len(),
    ensures
        s@ == string_array_view(*a)[i as int],
{
    let arr = a.inner.as_any().downcast_ref::<arrow::array::StringArray>().unwrap();
    arr.value(i)
}

/// Relies on Arc::clone: a second shared handle onto the same immutable
/// array, so any number of readers can hold it without copying.
#[verifier::external_body]
fn string_array_share(a: &StringColumnArray) -> (r: StringColumnArray)
    ensures
        string_array_view(r) == string_array_view(*a),
{
    StringColumnArray { inner: std::sync::Arc::clone(&a.inner) }
}

/// An immutable finalized block of string values: a stable id, the field
/// descriptor, the shared value array, and the parallel key column in
/// sorted order. No mutation API exists on this form.
pub struct StringBlock {
    pub id: u64,
    pub field: arrow::datatypes::Field,
    pub keys: Vec<CompositeKey>,
    pub values: StringColumnArray,
}

impl View for StringBlock {
    type V = Seq<(CompositeKeySpec, Seq<char>)>;

    open spec fn view(&self) -> Seq<(CompositeKeySpec, Seq<char>)> {
        Seq::new(
            self.keys@.len(),
            |i: int| (self.keys@[i]@, string_array_view(self.values)[i]),
        )
    }
}

impl StringBlock {
    /// Well-formedness: the key column runs parallel to the value array and
    /// the contents are strictly sorted by composite key.
    pub open spec fn wf(&self) -> bool {
        &&& self.keys@.len() == string_array_view(self.values).len()
        &&& entries_sorted(self@)
    }

    /// Number of entries held by the block.
    pub fn len(&self) -> (n: usize)
        ensures
            n == self@.len(),
    {
        self.keys.len()
    }

    /// Borrows the value at position `i` in key order, without copying.
    pub fn get(&self, i: usize) -> (s: &str)
        requires
            self.wf(),
            i < self@.len(),
        ensures
            s@ == self@[i as int].1,
    {
        string_array_get(&self.values, i)
    }

    /// Borrows the composite key at position `i`.
    pub fn key_at(&self, i: usize) -> (k: &CompositeKey)
        requires
            i < self@.len(),
        ensures
            k@ == self@[i as int].0,
    {
        &self.keys[i]
    }

    /// A second shared handle onto the block's immutable value array.
    pub fn share_values(&self) -> (a: StringColumnArray)
        ensures
            string_array_view(a) == string_array_view(self.values),
    {
        string_array_share(&self.values)
    }

    /// Re-stages the entry at `i` into a mutable delta: the merge path from
    /// a frozen block into a block under construction.
    pub fn add_to_delta(&self, i: usize, delta: &mut BlockDelta)
        requires
            self.wf(),
            i < self@.len(),
            <String as ArrowWriteableValue>::storage_matches(&old(delta).builder),
            <String as ArrowWriteableValue>::storage_wf(&old(delta).builder),
            <String as ArrowWriteableValue>::storage_view(&old(delta).builder).len() < usize::MAX,
            total_prefix_bytes(<String as ArrowWriteableValue>::storage_view(&old(delta).builder))
                + encode_utf8(self@[i as int].0.prefix).len() <= usize::MAX,
            total_key_bytes(<String as ArrowWriteableValue>::storage_view(&old(delta).builder))
                + crate::storage::key_byte_size(self@[i as int].0.key) <= usize::MAX,
            total_value_bytes::<String>(
                <String as ArrowWriteableValue>::storage_view(&old(delta).builder),
            ) + encode_utf8(self@[i as int].1).len() <= usize::MAX,
        ensures
            <String as ArrowWriteableValue>::storage_matches(&final(delta).builder),
            <String as ArrowWriteableValue>::storage_wf(&final(delta).builder),
            <String as ArrowWriteableValue>::storage_view(&final(delta).builder) == spec_upsert(
                <String as ArrowWriteableValue>::storage_view(&old(delta).builder),
                self@[i as int].0,
                self@[i as int].1,
            ),
            final(delta).id == old(delta).id,
    {
        let k = self.key_at(i);
        let v = self.get(i);
        let key = k.key.clone();
        delta.add::<String>(k.prefix.as_str(), key, v.to_owned());
    }
}

/// Finalizes a string delta: reads the size-tracker totals, pre-sizes the
/// destination builder from them, appends the staged values in sorted key
/// order, and freezes the result. One-way: the delta is consumed, and the
/// block holds exactly the staged entries.
pub fn finish_string_delta(delta: BlockDelta) -> (b: StringBlock)
    requires
        <String as ArrowWriteableValue>::storage_matches(&delta.builder),
        <String as ArrowWriteableValue>::storage_wf(&delta.builder),
        total_value_bytes::<String>(
            <String as ArrowWriteableValue>::storage_view(&delta.builder),
        ) <= 0x7fff_ffff,
    ensures
        b.wf(),
        b@ == <String as ArrowWriteableValue>::storage_view(&delta.builder),
        b.id == delta.id,
{
    let BlockDelta { id, builder } = delta;
    match builder {
        BlockStorage::Str(storage) => {
            let ghost sv = storage@;
            let tracker = storage.get_size_tracker();
            let mut ab = string_builder_with_capacity(
                tracker.get_num_items(),
                tracker.get_value_size(),
            );
            let mut keys: Vec<CompositeKey> = Vec::new();
            let n = storage.len();
            let mut i: usize = 0;
            proof {
                assert(sv.subrange(0, 0) =~= Seq::<(CompositeKeySpec, Seq<char>)>::empty());
            }
            while i < n
                invariant
                    i <= n,
                    n == sv.len(),
                    sv == storage@,
                    storage.wf(),
                    tracker == storage.size_tracker,
                    total_value_bytes::<String>(sv) <= 0x7fff_ffff,
                    keys@.len() == i,
                    forall|j: int| 0 <= j < i ==> (#[trigger] keys@[j])@ == sv[j].0,
                    string_builder_view(ab).len() == i,
                    forall|j: int| 0 <= j < i ==> (#[trigger] string_builder_view(ab)[j])
                        == sv[j].1,
                    chars_seq_bytes(string_builder_view(ab)) == total_value_bytes::<String>(
                        sv.subrange(0, i as int),
                    ),
                decreases n - i,
            {
                proof {
                    lemma_value_bytes_prefix_step(sv, i as int);
                }
                let ghost bv = string_builder_view(ab);
                let entry = storage.entry_at(i);
                string_builder_append(&mut ab, entry.1.as_str());
                keys.push(entry.0.clone());
                proof {
                    lemma_chars_seq_bytes_push(bv, sv[i as int].1);
                }
                i = i + 1;
            }
            let field = utf8_value_field();
            let values = string_builder_finish(ab);
            let b = StringBlock { id, field, keys, values };
            proof {
                assert(b@ =~= sv);
            }
            b
        },
        _ => vstd::pervasive::unreached(),
    }
}

} // verus!

verus! {

/// Holds the arrow builder a fixed-width u32 column is appended into.
#[verifier::external_body]
pub struct UInt32ColumnBuilder {
    inner: arrow::array::UInt32Builder,
}

/// The values appended so far into a u32 column builder, in order.
pub uninterp spec fn u32_builder_view(b: UInt32ColumnBuilder) -> Seq<u32>;

/// Holds the immutable, reference-counted array of a finished u32 column.
#[verifier::external_body]
pub struct UInt32ColumnArray {
    inner: std::sync::Arc<dyn arrow::array::Array>,
}

/// The values held by a finished u32 column, in order.
pub uninterp spec fn u32_array_view(a: UInt32ColumnArray) -> Seq<u32>;

/// Relies on PrimitiveBuilder::with_capacity: a newly created builder holds
/// no values.
#[verifier::external_body]
fn u32_builder_with_capacity(item_capacity: usize) -> (b: UInt32ColumnBuilder)
    ensures
        u32_builder_view(b) == Seq::<u32>::empty(),
{
    UInt32ColumnBuilder { inner: arrow::array::UInt32Builder::with_capacity(item_capacity) }
}

/// Relies on PrimitiveBuilder::append_value: appends one value at the end.
#[verifier::external_body]
fn u32_builder_append(b: &mut UInt32ColumnBuilder, v: u32)
    ensures
        u32_builder_view(*final(b)) == u32_builder_view(*old(b)).push(v),
{
    b.inner.append_value(v);
}

/// Relies on PrimitiveBuilder::finish and Array::slice: the finished array
/// holds exactly the appended values in order, sliced to the occupied
/// length.
#[verifier::external_body]
fn u32_builder_finish(b: UInt32ColumnBuilder) -> (a: UInt32ColumnArray)
    ensures
        u32_array_view(a) == u32_builder_view(b),
{
    let mut inner = b.inner;
    let arr = inner.finish();
    let len = arrow::array::Array::len(&arr);
    UInt32ColumnArray { inner: arrow::array::Array::slice(&arr, 0, len) }
}

/// Relies on arrow's Field constructor: the descriptor of a non-nullable
/// u32 value column.
#[verifier::external_body]
fn u32_value_field() -> (f: arrow::datatypes::Field) {
    arrow::datatypes::Field::new("value", arrow::datatypes::DataType::UInt32, false)
}

/// Relies on PrimitiveArray::value: the value at `i`. Every
/// `UInt32ColumnArray` is built by this module's builder, so the downcast
/// always succeeds.
#[verifier::external_body]
fn u32_array_get(a: &UInt32ColumnArray, i: usize) -> (v: u32)
    requires
        i < u32_array_view(*a).len(),
    ensures
        v == u32_array_view(*a)[i as int],
{
    let arr = a.inner.as_any().downcast_ref::<arrow::array::UInt32Array>().unwrap();
    arr.value(i)
}

/// An immutable finalized block of u32 values.
pub struct UInt32Block {
    pub id: u64,
    pub field: arrow::datatypes::Field,
    pub keys: Vec<CompositeKey>,
    pub values: UInt32ColumnArray,
}

impl View for UInt32Block {
    type V = Seq<(CompositeKeySpec, u32)>;

    open spec fn view(&self) -> Seq<(CompositeKeySpec, u32)> {
        Seq::new(self.keys@.len(), |i: int| (self.keys@[i]@, u32_array_view(self.values)[i]))
    }
}

impl UInt32Block {
    /// Well-formedness: parallel key column, contents sorted by key.
    pub open spec fn wf(&self) -> bool {
        &&& self.keys@.len() == u32_array_view(self.values).len()
        &&& entries_sorted(self@)
    }

    /// Number of entries held by the block.
    pub fn len(&self) -> (n: usize)
        ensures
            n == self@.len(),
    {
        self.keys.len()
    }

    /// The value at position `i` in key order.
    pub fn get(&self, i: usize) -> (v: u32)
        requires
            self.wf(),
            i < self@.len(),
        ensures
            v == self@[i as int].1,
    {
        u32_array_get(&self.values, i)
    }

    /// Borrows the composite key at position `i`.
    pub fn key_at(&self, i: usize) -> (k: &CompositeKey)
        requires
            i < self@.len(),
        ensures
            k@ == self@[i as int].0,
    {
        &self.keys[i]
    }
}

/// Finalizes a u32 delta into an immutable block; the delta is consumed and
/// the block holds exactly the staged entries in sorted key order.
pub fn finish_u32_delta(delta: BlockDelta) -> (b: UInt32Block)
    requires
        <u32 as ArrowWriteableValue>::storage_matches(&delta.builder),
        <u32 as ArrowWriteableValue>::storage_wf(&delta.builder),
    ensures
        b.wf(),
        b@ == <u32 as ArrowWriteableValue>::storage_view(&delta.builder),
        b.id == delta.id,
{
    let BlockDelta { id, builder } = delta;
    match builder {
        BlockStorage::UInt32(storage) => {
            let ghost sv = storage@;
            let tracker = storage.get_size_tracker();
            let mut ab = u32_builder_with_capacity(tracker.get_num_items());
            let mut keys: Vec<CompositeKey> = Vec::new();
            let n = storage.len();
            let mut i: usize = 0;
            while i < n
                invariant
                    i <= n,
                    n == sv.len(),
                    sv == storage@,
                    keys@.len() == i,
                    forall|j: int| 0 <= j < i ==> (#[trigger] keys@[j])@ == sv[j].0,
                    u32_builder_view(ab).len() == i,
                    forall|j: int| 0 <= j < i ==> (#[trigger] u32_builder_view(ab)[j]) == sv[j].1,
                decreases n - i,
            {
                let entry = storage.entry_at(i);
                u32_builder_append(&mut ab, entry.1);
                keys.push(entry.0.clone());
                i = i + 1;
            }
            let field = u32_value_field();
            let values = u32_builder_finish(ab);
            let b = UInt32Block { id, field, keys, values };
            proof {
                assert(b@ =~= sv);
            }
            b
        },
        _ => vstd::pervasive::unreached(),
    }
}

/// Holds the arrow builder a boolean column is appended into.
#[verifier::external_body]
pub struct BoolColumnBuilder {
    inner: arrow::array::BooleanBuilder,
}

/// The values appended so far into a boolean column builder, in order.
pub uninterp spec fn bool_builder_view(b: BoolColumnBuilder) -> Seq<bool>;

/// Holds the immutable, reference-counted array of a finished boolean
/// column.
#[verifier::external_body]
pub struct BoolColumnArray {
    inner: std::sync::Arc<dyn arrow::array::Array>,
}

/// The values held by a finished boolean column, in order.
pub uninterp spec fn bool_array_view(a: BoolColumnArray) -> Seq<bool>;

/// Relies on BooleanBuilder::with_capacity: a newly created builder holds
/// no values.
#[verifier::external_body]
fn bool_builder_with_capacity(item_capacity: usize) -> (b: BoolColumnBuilder)
    ensures
        bool_builder_view(b) == Seq::<bool>::empty(),
{
    BoolColumnBuilder { inner: arrow::array::BooleanBuilder::with_capacity(item_capacity) }
}

/// Relies on BooleanBuilder::append_value: appends one value at the end.
#[verifier::external_body]
fn bool_builder_append(b: &mut BoolColumnBuilder, v: bool)
    ensures
        bool_builder_view(*final(b)) == bool_builder_view(*old(b)).push(v),
{
    b.inner.append_value(v);
}

/// Relies on BooleanBuilder::finish and Array::slice: the finished array
/// holds exactly the appended values in order, sliced to the occupied
/// length.
#[verifier::external_body]
fn bool_builder_finish(b: BoolColumnBuilder) -> (a: BoolColumnArray)
    ensures
        bool_array_view(a) == bool_builder_view(b),
{
    let mut inner = b.inner;
    let arr = inner.finish();
    let len = arrow::array::Array::len(&arr);
    BoolColumnArray { inner: arrow::array::Array::slice(&arr, 0, len) }
}

/// Relies on arrow's Field constructor: the descriptor of a non-nullable
/// boolean value column.
#[verifier::external_body]
fn bool_value_field() -> (f: arrow::datatypes::Field) {
    arrow::datatypes::Field::new("value", arrow::datatypes::DataType::Boolean, false)
}

/// Relies on BooleanArray::value: the value at `i`. Every `BoolColumnArray`
/// is built by this module's builder, so the downcast always succeeds.
#[verifier::external_body]
fn bool_array_get(a: &BoolColumnArray, i: usize) -> (v: bool)
    requires
        i < bool_array_view(*a).len(),
    ensures
        v == bool_array_view(*a)[i as int],
{
    let arr = a.inner.as_any().downcast_ref::<arrow::array::BooleanArray>().unwrap();
    arr.value(i)
}

/// An immutable finalized block of boolean values.
pub struct BoolBlock {
    pub id: u64,
    pub field: arrow::datatypes::Field,
    pub keys: Vec<CompositeKey>,
    pub values: BoolColumnArray,
}

impl View for BoolBlock {
    type V = Seq<(CompositeKeySpec, bool)>;

    open spec fn view(&self) -> Seq<(CompositeKeySpec, bool)> {
        Seq::new(self.keys@.len(), |i: int| (self.keys@[i]@, bool_array_view(self.values)[i]))
    }
}

impl BoolBlock {
    /// Well-formedness: parallel key column, contents sorted by key.
    pub open spec fn wf(&self) -> bool {
        &&& self.keys@.len() == bool_array_view(self.values).len()
        &&& entries_sorted(self@)
    }

    /// Number of entries held by the block.
    pub fn len(&self) -> (n: usize)
        ensures
            n == self@.len(),
    {
        self.keys.len()
    }

    /// The value at position `i` in key order.
    pub fn get(&self, i: usize) -> (v: bool)
        requires
            self.wf(),
            i < self@.len(),
        ensures
            v == self@[i as int].1,
    {
        bool_array_get(&self.values, i)
    }

    /// Borrows the composite key at position `i`.
    pub fn key_at(&self, i: usize) -> (k: &CompositeKey)
        requires
            i < self@.len(),
        ensures
            k@ == self@[i as int].0,
    {
        &self.keys[i]
    }
}

/// Finalizes a boolean delta into an immutable block; the delta is consumed
/// and the block holds exactly the staged entries in sorted key order.
pub fn finish_bool_delta(delta: BlockDelta) -> (b: BoolBlock)
    requires
        <bool as ArrowWriteableValue>::storage_matches(&delta.builder),
        <bool as ArrowWriteableValue>::storage_wf(&delta.builder),
    ensures
        b.wf(),
        b@ == <bool as ArrowWriteableValue>::storage_view(&delta.builder),
        b.id == delta.id,
{
    let BlockDelta { id, builder } = delta;
    match builder {
        BlockStorage::Bool(storage) => {
            let ghost sv = storage@;
            let tracker = storage.get_size_tracker();
            let mut ab = bool_builder_with_capacity(tracker.get_num_items());
            let mut keys: Vec<CompositeKey> = Vec::new();
            let n = storage.len();
            let mut i: usize = 0;
            while i < n
                invariant
                    i <= n,
                    n == sv.len(),
                    sv == storage@,
                    keys@.len() == i,
                    forall|j: int| 0 <= j < i ==> (#[trigger] keys@[j])@ == sv[j].0,
                    bool_builder_view(ab).len() == i,
                    forall|j: int| 0 <= j < i ==> (#[trigger] bool_builder_view(ab)[j]) == sv[j].1,
                decreases n - i,
            {
                let entry = storage.entry_at(i);
                bool_builder_append(&mut ab, entry.1);
                keys.push(entry.0.clone());
                i = i + 1;
            }
            let field = bool_value_field();
            let values = bool_builder_finish(ab);
            let b = BoolBlock { id, field, keys, values };
            proof {
                assert(b@ =~= sv);
            }
            b
        },
        _ => vstd::pervasive::unreached(),
    }
}

} // verus!

verus! {

proof fn lemma_staged_bytes_exact(s: Seq<(CompositeKeySpec, Seq<char>)>)
    ensures
        chars_seq_bytes(s.map_values(|e: (CompositeKeySpec, Seq<char>)| e.1))
            == total_value_bytes::<String>(s),
    decreases s.len(),
{
    let f = |e: (CompositeKeySpec, Seq<char>)| e.1;
    if s.len() == 0 {
        assert(s.map_values(f) =~= Seq::<Seq<char>>::empty());
    } else {
        lemma_staged_bytes_exact(s.skip(1));
        assert(s.map_values(f).skip(1) =~= s.skip(1).map_values(f));
        assert(s.map_values(f)[0] == s[0].1);
    }
}

/// Size exactness: for a well-formed storage the tracker totals the builder
/// is pre-sized from are exactly the item count and the value bytes that
/// finalization appends, so the pre-sized builder never needs to grow and
/// the sliced output carries no tail.
pub proof fn lemma_presized_builder_exact(s: &crate::storage::SingleColumnStorage<String>)
    requires
        s.wf(),
    ensures
        s.size_tracker.num_items == s@.len(),
        s.size_tracker.value_size == chars_seq_bytes(
            s@.map_values(|e: (CompositeKeySpec, Seq<char>)| e.1),
        ),
{
    lemma_staged_bytes_exact(s@);
}

/// Round trip: a block finalized from a string delta returns, at every
/// position, exactly the staged key and value, and the positions run in
/// sorted key order.
pub proof fn lemma_string_round_trip(delta: BlockDelta, b: StringBlock, i: int)
    requires
        b.wf(),
        b@ == <String as ArrowWriteableValue>::storage_view(&delta.builder),
        0 <= i < b@.len(),
    ensures
        b@[i] == <String as ArrowWriteableValue>::storage_view(&delta.builder)[i],
        entries_sorted(<String as ArrowWriteableValue>::storage_view(&delta.builder)),
{
}

} // verus!
