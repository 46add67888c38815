//! The sorted associative structure from composite key to value for one
//! block, together with its size tracker. Entries are kept strictly sorted
//! by composite key, so finalization iterates them in key order without a
//! separate sort pass, and the tracker totals are exact at every step.

use vstd::prelude::*;
use vstd::utf8::encode_utf8;
use crate::key::{
    ck_lt, composite_eq, composite_lt, lemma_ck_lt_asymmetric,
    lemma_ck_lt_connected, lemma_ck_lt_transitive, CompositeKey, CompositeKeySpec, KeySpec,
    KeyWrapper,
};
use crate::tracker::SingleColumnSizeTracker;

verus! {

/// A value type that can live in a column: it reports the exact byte
/// footprint it will occupy in the destination value buffer.
pub trait StorageValue: View + Sized {
    /// Byte footprint of a value, as a function of its spec-level image.
    spec fn view_byte_size(v: Self::V) -> nat;

    /// Computes the byte footprint of this value.
    fn byte_size(&self) -> (r: usize)
        ensures
            r as nat == Self::view_byte_size(self@),
    ;
}

impl StorageValue for String {
    open spec fn view_byte_size(v: Seq<char>) -> nat {
        encode_utf8(v).len()
    }

    fn byte_size(&self) -> (r: usize) {
        self.as_str().as_bytes().len()
    }
}

impl StorageValue for u32 {
    open spec fn view_byte_size(v: u32) -> nat {
        4
    }

    fn byte_size(&self) -> (r: usize) {
        4
    }
}

impl StorageValue for bool {
    open spec fn view_byte_size(v: bool) -> nat {
        1
    }

    fn byte_size(&self) -> (r: usize) {
        1
    }
}

/// Byte footprint of a typed key.
pub open spec fn key_byte_size(k: KeySpec) -> nat {
    match k {
        KeySpec::Str(s) => encode_utf8(s).len(),
        KeySpec::Uint(_) => 4,
        KeySpec::Bool(_) => 1,
    }
}

/// Computes the byte footprint of a typed key.
pub fn key_wrapper_byte_size(k: &KeyWrapper) -> (r: usize)
    ensures
        r as nat == key_byte_size(k@),
{
    match k {
        KeyWrapper::Str(s) => s.as_str().as_bytes().len(),
        KeyWrapper::Uint(_) => 4,
        KeyWrapper::Bool(_) => 1,
    }
}

/// The staged entries are strictly sorted by composite key; in particular
/// every composite key occurs at most once.
pub open spec fn entries_sorted<T>(s: Seq<(CompositeKeySpec, T)>) -> bool {
    forall|i: int, j: int|
        #![trigger s[i], s[j]]
        0 <= i < j < s.len() ==> ck_lt(s[i].0, s[j].0)
}

/// Whether some entry carries the composite key `k`.
pub open spec fn has_key<T>(s: Seq<(CompositeKeySpec, T)>, k: CompositeKeySpec) -> bool {
    exists|i: int| 0 <= i < s.len() && (#[trigger] s[i]).0 == k
}

/// The value of the first entry carrying `k`, if any.
pub open spec fn lookup<T>(s: Seq<(CompositeKeySpec, T)>, k: CompositeKeySpec) -> Option<T>
    decreases s.len(),
{
    if s.len() == 0 {
        Option::None
    } else if s[0].0 == k {
        Option::Some(s[0].1)
    } else {
        lookup(s.skip(1), k)
    }
}

/// Upsert into a key-sorted sequence: the new entry replaces the entry with
/// the same key if one exists, and otherwise is placed before the first
/// larger key.
pub open spec fn spec_upsert<T>(
    s: Seq<(CompositeKeySpec, T)>,
    k: CompositeKeySpec,
    v: T,
) -> Seq<(CompositeKeySpec, T)>
    decreases s.len(),
{
    if s.len() == 0 {
        seq![(k, v)]
    } else if ck_lt(k, s[0].0) {
        seq![(k, v)] + s
    } else if k == s[0].0 {
        seq![(k, v)] + s.skip(1)
    } else {
        seq![s[0]] + spec_upsert(s.skip(1), k, v)
    }
}

/// Removal from a sequence: drops the first entry carrying `k`, and leaves
/// a sequence without `k` unchanged.
pub open spec fn spec_remove<T>(
    s: Seq<(CompositeKeySpec, T)>,
    k: CompositeKeySpec,
) -> Seq<(CompositeKeySpec, T)>
    decreases s.len(),
{
    if s.len() == 0 {
        s
    } else if s[0].0 == k {
        s.skip(1)
    } else {
        seq![s[0]] + spec_remove(s.skip(1), k)
    }
}

/// Cumulative prefix bytes over a sequence of entries.
pub open spec fn total_prefix_bytes<T>(s: Seq<(CompositeKeySpec, T)>) -> nat
    decreases s.len(),
{
    if s.len() == 0 {
        0
    } else {
        encode_utf8(s[0].0.prefix).len() + total_prefix_bytes(s.skip(1))
    }
}

/// Cumulative key bytes over a sequence of entries.
pub open spec fn total_key_bytes<T>(s: Seq<(CompositeKeySpec, T)>) -> nat
    decreases s.len(),
{
    if s.len() == 0 {
        0
    } else {
        key_byte_size(s[0].0.key) + total_key_bytes(s.skip(1))
    }
}

/// Cumulative raw value bytes over a sequence of entries.
pub open spec fn total_value_bytes<V: StorageValue>(
    s: Seq<(CompositeKeySpec, <V as View>::V)>,
) -> nat
    decreases s.len(),
{
    if s.len() == 0 {
        0
    } else {
        V::view_byte_size(s[0].1) + total_value_bytes::<V>(s.skip(1))
    }
}

proof fn lemma_total_prefix_concat<T>(a: Seq<(CompositeKeySpec, T)>, b: Seq<(CompositeKeySpec, T)>)
    ensures
        total_prefix_bytes(a + b) == total_prefix_bytes(a) + total_prefix_bytes(b),
    decreases a.len(),
{
    if a.len() == 0 {
        assert(a + b =~= b);
    } else {
        assert((a + b).skip(1) =~= a.skip(1) + b);
        lemma_total_prefix_concat(a.skip(1), b);
    }
}

proof fn lemma_total_key_concat<T>(a: Seq<(CompositeKeySpec, T)>, b: Seq<(CompositeKeySpec, T)>)
    ensures
        total_key_bytes(a + b) == total_key_bytes(a) + total_key_bytes(b),
    decreases a.len(),
{
    if a.len() == 0 {
        assert(a + b =~= b);
    } else {
        assert((a + b).skip(1) =~= a.skip(1) + b);
        lemma_total_key_concat(a.skip(1), b);
    }
}

proof fn lemma_total_value_concat<V: StorageValue>(
    a: Seq<(CompositeKeySpec, <V as View>::V)>,
    b: Seq<(CompositeKeySpec, <V as View>::V)>,
)
    ensures
        total_value_bytes::<V>(a + b) == total_value_bytes::<V>(a) + total_value_bytes::<V>(b),
    decreases a.len(),
{
    if a.len() == 0 {
        assert(a + b =~= b);
    } else {
        assert((a + b).skip(1) =~= a.skip(1) + b);
        lemma_total_value_concat::<V>(a.skip(1), b);
    }
}

/// Decomposes each running total around position `i`.
pub proof fn lemma_totals_decompose<V: StorageValue>(
    s: Seq<(CompositeKeySpec, <V as View>::V)>,
    i: int,
)
    requires
        0 <= i < s.len(),
    ensures
        total_prefix_bytes(s) == total_prefix_bytes(s.subrange(0, i))
            + encode_utf8(s[i].0.prefix).len() + total_prefix_bytes(s.subrange(i + 1, s.len() as int)),
        total_key_bytes(s) == total_key_bytes(s.subrange(0, i)) + key_byte_size(s[i].0.key)
            + total_key_bytes(s.subrange(i + 1, s.len() as int)),
        total_value_bytes::<V>(s) == total_value_bytes::<V>(s.subrange(0, i))
            + V::view_byte_size(s[i].1) + total_value_bytes::<V>(s.subrange(i + 1, s.len() as int)),
{
    let front = s.subrange(0, i);
    let mid = seq![s[i]];
    let back = s.subrange(i + 1, s.len() as int);
    assert(s =~= front + (mid + back));
    assert((mid + back).skip(1) =~= back);
    lemma_total_prefix_concat(front, mid + back);
    lemma_total_key_concat(front, mid + back);
    lemma_total_value_concat::<V>(front, mid + back);
}

/// Decomposes each running total at a split point `i`.
pub proof fn lemma_totals_split<V: StorageValue>(
    s: Seq<(CompositeKeySpec, <V as View>::V)>,
    i: int,
)
    requires
        0 <= i <= s.len(),
    ensures
        total_prefix_bytes(s) == total_prefix_bytes(s.subrange(0, i))
            + total_prefix_bytes(s.subrange(i, s.len() as int)),
        total_key_bytes(s) == total_key_bytes(s.subrange(0, i))
            + total_key_bytes(s.subrange(i, s.len() as int)),
        total_value_bytes::<V>(s) == total_value_bytes::<V>(s.subrange(0, i))
            + total_value_bytes::<V>(s.subrange(i, s.len() as int)),
{
    let front = s.subrange(0, i);
    let back = s.subrange(i, s.len() as int);
    assert(s =~= front + back);
    lemma_total_prefix_concat(front, back);
    lemma_total_key_concat(front, back);
    lemma_total_value_concat::<V>(front, back);
}

/// Where the exec upsert lands: replacing at `i` when the key is already
/// there, inserting at `i` when the key at `i` (if any) is larger.
pub proof fn lemma_spec_upsert_at<T>(
    s: Seq<(CompositeKeySpec, T)>,
    k: CompositeKeySpec,
    v: T,
    i: int,
)
    requires
        entries_sorted(s),
        0 <= i <= s.len(),
        forall|j: int| 0 <= j < i ==> ck_lt((#[trigger] s[j]).0, k),
    ensures
        i < s.len() && s[i].0 == k ==> spec_upsert(s, k, v) == s.update(i, (k, v)),
        (i == s.len() || ck_lt(k, s[i].0)) ==> spec_upsert(s, k, v) == s.insert(i, (k, v)),
    decreases s.len(),
{
    lemma_ck_lt_asymmetric(k, k);
    if i == 0 {
        if 0 < s.len() && s[0].0 == k {
            assert(spec_upsert(s, k, v) =~= s.update(0, (k, v)));
        } else if s.len() == 0 {
            assert(spec_upsert(s, k, v) =~= s.insert(0, (k, v)));
        } else if ck_lt(k, s[0].0) {
            assert(spec_upsert(s, k, v) =~= s.insert(0, (k, v)));
        }
    } else {
        assert(ck_lt(s[0].0, k));
        lemma_ck_lt_asymmetric(s[0].0, k);
        let tail = s.skip(1);
        assert(forall|j: int| 0 <= j < i - 1 ==> ck_lt((#[trigger] tail[j]).0, k));
        lemma_spec_upsert_at(tail, k, v, i - 1);
        assert(spec_upsert(s, k, v) == seq![s[0]] + spec_upsert(tail, k, v));
        if i < s.len() && s[i].0 == k {
            assert(tail[i - 1].0 == k);
            assert(seq![s[0]] + tail.update(i - 1, (k, v)) =~= s.update(i, (k, v)));
        }
        if i == s.len() || ck_lt(k, s[i].0) {
            assert(seq![s[0]] + tail.insert(i - 1, (k, v)) =~= s.insert(i, (k, v)));
        }
    }
}

/// Where the exec delete lands: removing position `i`, the first match.
pub proof fn lemma_spec_remove_at<T>(s: Seq<(CompositeKeySpec, T)>, k: CompositeKeySpec, i: int)
    requires
        0 <= i < s.len(),
        s[i].0 == k,
        forall|j: int| 0 <= j < i ==> (#[trigger] s[j]).0 != k,
    ensures
        spec_remove(s, k) == s.remove(i),
    decreases s.len(),
{
    if i == 0 {
        assert(spec_remove(s, k) =~= s.remove(0));
    } else {
        let tail = s.skip(1);
        assert(forall|j: int| 0 <= j < i - 1 ==> (#[trigger] tail[j]).0 != k);
        lemma_spec_remove_at(tail, k, i - 1);
        assert(seq![s[0]] + tail.remove(i - 1) =~= s.remove(i));
    }
}

/// Removing an absent key changes nothing.
pub proof fn lemma_spec_remove_absent<T>(s: Seq<(CompositeKeySpec, T)>, k: CompositeKeySpec)
    requires
        forall|j: int| 0 <= j < s.len() ==> (#[trigger] s[j]).0 != k,
    ensures
        spec_remove(s, k) == s,
    decreases s.len(),
{
    if s.len() > 0 {
        lemma_spec_remove_absent(s.skip(1), k);
        assert(seq![s[0]] + s.skip(1) =~= s);
    }
}

/// Where the exec lookup lands: the first match, or nothing.
pub proof fn lemma_lookup_at<T>(s: Seq<(CompositeKeySpec, T)>, k: CompositeKeySpec, i: int)
    requires
        0 <= i < s.len(),
        s[i].0 == k,
        forall|j: int| 0 <= j < i ==> (#[trigger] s[j]).0 != k,
    ensures
        lookup(s, k) == Option::Some(s[i].1),
    decreases s.len(),
{
    if i > 0 {
        let tail = s.skip(1);
        assert(forall|j: int| 0 <= j < i - 1 ==> (#[trigger] tail[j]).0 != k);
        lemma_lookup_at(tail, k, i - 1);
    }
}

/// A sequence without `k` looks it up to nothing.
pub proof fn lemma_lookup_absent<T>(s: Seq<(CompositeKeySpec, T)>, k: CompositeKeySpec)
    requires
        forall|j: int| 0 <= j < s.len() ==> (#[trigger] s[j]).0 != k,
    ensures
        lookup(s, k) == Option::None::<T>,
    decreases s.len(),
{
    if s.len() > 0 {
        lemma_lookup_absent(s.skip(1), k);
    }
}

} // verus!

verus! {

/// Upsert preserves strict key order; the head of the result carries the new
/// key or the old head key.
pub proof fn lemma_spec_upsert_sorted<T>(s: Seq<(CompositeKeySpec, T)>, k: CompositeKeySpec, v: T)
    requires
        entries_sorted(s),
    ensures
        entries_sorted(spec_upsert(s, k, v)),
        spec_upsert(s, k, v).len() > 0,
        spec_upsert(s, k, v)[0].0 == k || (s.len() > 0 && spec_upsert(s, k, v)[0].0 == s[0].0),
    decreases s.len(),
{
    let res = spec_upsert(s, k, v);
    if s.len() == 0 {
    } else if ck_lt(k, s[0].0) {
        assert forall|i: int, j: int| 0 <= i < j < res.len() implies ck_lt(
            (#[trigger] res[i]).0,
            (#[trigger] res[j]).0,
        ) by {
            if i == 0 {
                if j > 1 {
                    lemma_ck_lt_transitive(k, s[0].0, s[j - 1].0);
                }
            }
        }
    } else if k == s[0].0 {
        assert forall|i: int, j: int| 0 <= i < j < res.len() implies ck_lt(
            (#[trigger] res[i]).0,
            (#[trigger] res[j]).0,
        ) by {}
    } else {
        lemma_ck_lt_connected(k, s[0].0);
        lemma_ck_lt_asymmetric(k, s[0].0);
        assert(ck_lt(s[0].0, k));
        let tail = s.skip(1);
        lemma_spec_upsert_sorted(tail, k, v);
        let rt = spec_upsert(tail, k, v);
        assert(res =~= seq![s[0]] + rt);
        assert forall|i: int, j: int| 0 <= i < j < res.len() implies ck_lt(
            (#[trigger] res[i]).0,
            (#[trigger] res[j]).0,
        ) by {
            if i == 0 {
                assert(ck_lt(s[0].0, rt[0].0));
                if j > 1 {
                    lemma_ck_lt_transitive(s[0].0, rt[0].0, rt[j - 1].0);
                }
            }
        }
    }
}

/// Removal preserves strict key order, and never brings a key below the old
/// head key.
pub proof fn lemma_spec_remove_sorted<T>(s: Seq<(CompositeKeySpec, T)>, k: CompositeKeySpec)
    requires
        entries_sorted(s),
    ensures
        entries_sorted(spec_remove(s, k)),
        forall|j: int|
            0 <= j < spec_remove(s, k).len() ==> s.len() > 0 && !ck_lt(
                (#[trigger] spec_remove(s, k)[j]).0,
                s[0].0,
            ),
    decreases s.len(),
{
    let res = spec_remove(s, k);
    if s.len() == 0 {
    } else if s[0].0 == k {
        assert forall|j: int| 0 <= j < res.len() implies s.len() > 0 && !ck_lt(
            (#[trigger] res[j]).0,
            s[0].0,
        ) by {
            lemma_ck_lt_asymmetric(s[0].0, res[j].0);
        }
    } else {
        let tail = s.skip(1);
        lemma_spec_remove_sorted(tail, k);
        let rt = spec_remove(tail, k);
        assert(res =~= seq![s[0]] + rt);
        assert forall|j: int| 1 <= j < res.len() implies ck_lt(s[0].0, (#[trigger] res[j]).0) by {
            assert(res[j] == rt[j - 1]);
            assert(!ck_lt(rt[j - 1].0, tail[0].0));
            lemma_ck_lt_connected(rt[j - 1].0, tail[0].0);
            if ck_lt(tail[0].0, rt[j - 1].0) {
                lemma_ck_lt_transitive(s[0].0, tail[0].0, rt[j - 1].0);
            }
        }
        assert forall|i: int, j: int| 0 <= i < j < res.len() implies ck_lt(
            (#[trigger] res[i]).0,
            (#[trigger] res[j]).0,
        ) by {}
        assert forall|j: int| 0 <= j < res.len() implies s.len() > 0 && !ck_lt(
            (#[trigger] res[j]).0,
            s[0].0,
        ) by {
            if j == 0 {
                lemma_ck_lt_asymmetric(s[0].0, s[0].0);
            } else {
                lemma_ck_lt_asymmetric(s[0].0, res[j].0);
            }
        }
    }
}

/// Upsert adds one entry exactly when the key is new, and never changes the
/// count when the key is already present.
pub proof fn lemma_spec_upsert_len<T>(s: Seq<(CompositeKeySpec, T)>, k: CompositeKeySpec, v: T)
    requires
        entries_sorted(s),
    ensures
        has_key(s, k) ==> spec_upsert(s, k, v).len() == s.len(),
        !has_key(s, k) ==> spec_upsert(s, k, v).len() == s.len() + 1,
    decreases s.len(),
{
    if s.len() == 0 {
    } else if ck_lt(k, s[0].0) {
        assert forall|i: int| 0 <= i < s.len() implies (#[trigger] s[i]).0 != k by {
            if i > 0 {
                lemma_ck_lt_transitive(k, s[0].0, s[i].0);
            }
            lemma_ck_lt_asymmetric(k, s[i].0);
        }
    } else if k == s[0].0 {
        assert(has_key(s, k));
    } else {
        lemma_ck_lt_connected(k, s[0].0);
        let tail = s.skip(1);
        lemma_spec_upsert_len(tail, k, v);
        assert(has_key(s, k) == has_key(tail, k)) by {
            if has_key(tail, k) {
                let i = choose|i: int| 0 <= i < tail.len() && (#[trigger] tail[i]).0 == k;
                assert(s[i + 1].0 == k);
            }
            if has_key(s, k) {
                let i = choose|i: int| 0 <= i < s.len() && (#[trigger] s[i]).0 == k;
                assert(i > 0);
                assert(tail[i - 1].0 == k);
            }
        }
    }
}

/// Adding the same key twice leaves exactly what adding it once with the
/// latest value leaves.
pub proof fn lemma_spec_upsert_idempotent<T>(
    s: Seq<(CompositeKeySpec, T)>,
    k: CompositeKeySpec,
    v1: T,
    v2: T,
)
    requires
        entries_sorted(s),
    ensures
        spec_upsert(spec_upsert(s, k, v1), k, v2) == spec_upsert(s, k, v2),
    decreases s.len(),
{
    lemma_ck_lt_asymmetric(k, k);
    let u1 = spec_upsert(s, k, v1);
    if s.len() == 0 {
        assert(spec_upsert(u1, k, v2) =~= spec_upsert(s, k, v2));
    } else if ck_lt(k, s[0].0) {
        assert(u1[0] == (k, v1));
        assert(u1.skip(1) =~= s);
        assert(spec_upsert(u1, k, v2) =~= spec_upsert(s, k, v2));
    } else if k == s[0].0 {
        assert(u1[0] == (k, v1));
        assert(u1.skip(1) =~= s.skip(1));
        assert(spec_upsert(u1, k, v2) =~= spec_upsert(s, k, v2));
    } else {
        let tail = s.skip(1);
        lemma_spec_upsert_idempotent(tail, k, v1, v2);
        assert(u1 == seq![s[0]] + spec_upsert(tail, k, v1));
        assert(u1.len() > 0 && u1[0] == s[0]);
        assert(u1.skip(1) =~= spec_upsert(tail, k, v1));
        assert(spec_upsert(u1, k, v2) == seq![u1[0]] + spec_upsert(u1.skip(1), k, v2));
        assert(spec_upsert(s, k, v2) == seq![s[0]] + spec_upsert(tail, k, v2));
    }
}

/// Deleting a key and re-adding it leaves exactly what adding it directly
/// leaves.
pub proof fn lemma_spec_remove_then_upsert<T>(s: Seq<(CompositeKeySpec, T)>, k: CompositeKeySpec, v: T)
    requires
        entries_sorted(s),
    ensures
        spec_upsert(spec_remove(s, k), k, v) == spec_upsert(s, k, v),
    decreases s.len(),
{
    lemma_ck_lt_asymmetric(k, k);
    if s.len() == 0 {
    } else if s[0].0 == k {
        let tail = s.skip(1);
        if tail.len() == 0 {
            assert(spec_upsert(tail, k, v) =~= spec_upsert(s, k, v));
        } else {
            assert(ck_lt(s[0].0, tail[0].0));
            assert(spec_upsert(tail, k, v) =~= seq![(k, v)] + tail);
            assert(spec_upsert(s, k, v) =~= seq![(k, v)] + tail);
        }
    } else {
        lemma_ck_lt_connected(k, s[0].0);
        if ck_lt(k, s[0].0) {
            assert forall|j: int| 0 <= j < s.len() implies (#[trigger] s[j]).0 != k by {
                if j > 0 {
                    lemma_ck_lt_transitive(k, s[0].0, s[j].0);
                }
                lemma_ck_lt_asymmetric(k, s[j].0);
            }
            lemma_spec_remove_absent(s, k);
        } else {
            assert(ck_lt(s[0].0, k));
            lemma_ck_lt_asymmetric(s[0].0, k);
            let tail = s.skip(1);
            lemma_spec_remove_then_upsert(tail, k, v);
            let r = spec_remove(s, k);
            assert(r == seq![s[0]] + spec_remove(tail, k));
            assert(r.len() > 0 && r[0] == s[0]);
            assert(r.skip(1) =~= spec_remove(tail, k));
            assert(spec_upsert(r, k, v) == seq![r[0]] + spec_upsert(r.skip(1), k, v));
            assert(spec_upsert(s, k, v) == seq![s[0]] + spec_upsert(tail, k, v));
        }
    }
}

} // verus!

verus! {

/// The in-memory sorted staging structure for one column: entries strictly
/// sorted by composite key, plus exact running size totals.
pub struct SingleColumnStorage<V: StorageValue> {
    pub entries: Vec<(CompositeKey, V)>,
    pub size_tracker: SingleColumnSizeTracker,
}

impl<V: StorageValue> View for SingleColumnStorage<V> {
    type V = Seq<(CompositeKeySpec, <V as View>::V)>;

    open spec fn view(&self) -> Seq<(CompositeKeySpec, <V as View>::V)> {
        self.entries@.map_values(|e: (CompositeKey, V)| (e.0@, e.1@))
    }
}

impl<V: StorageValue> SingleColumnStorage<V> {
    /// Well-formedness: entries strictly sorted by composite key and tracker
    /// totals exactly consistent with the staged contents.
    pub open spec fn wf(&self) -> bool {
        &&& entries_sorted(self@)
        &&& self.size_tracker.num_items == self@.len()
        &&& self.size_tracker.prefix_size == total_prefix_bytes(self@)
        &&& self.size_tracker.key_size == total_key_bytes(self@)
        &&& self.size_tracker.value_size == total_value_bytes::<V>(self@)
    }

    /// Creates an empty storage.
    pub fn new() -> (s: Self)
        ensures
            s.wf(),
            s@ == Seq::<(CompositeKeySpec, <V as View>::V)>::empty(),
    {
        let s = SingleColumnStorage {
            entries: Vec::new(),
            size_tracker: SingleColumnSizeTracker::new(),
        };
        proof {
            assert(s@ =~= Seq::<(CompositeKeySpec, <V as View>::V)>::empty());
        }
        s
    }

    /// Number of staged entries.
    pub fn len(&self) -> (n: usize)
        ensures
            n == self@.len(),
    {
        self.entries.len()
    }

    /// A copy of the current size-tracker totals.
    pub fn get_size_tracker(&self) -> (t: SingleColumnSizeTracker)
        ensures
            t == self.size_tracker,
    {
        self.size_tracker
    }

    /// Borrows the entry at position `i` in key order.
    pub fn entry_at(&self, i: usize) -> (e: &(CompositeKey, V))
        requires
            i < self@.len(),
        ensures
            (e.0@, e.1@) == self@[i as int],
    {
        &self.entries[i]
    }

    /// The position of the first entry whose key is not below `ck`.
    fn scan_position(&self, ck: &CompositeKey) -> (i: usize)
        ensures
            i <= self@.len(),
            forall|j: int| 0 <= j < i ==> ck_lt((#[trigger] self@[j]).0, ck@),
            i < self@.len() ==> !ck_lt(self@[i as int].0, ck@),
    {
        let n = self.entries.len();
        let mut i: usize = 0;
        loop
            invariant
                i <= n,
                n == self@.len(),
                forall|j: int| 0 <= j < i ==> ck_lt((#[trigger] self@[j]).0, ck@),
            decreases n - i,
        {
            if i == n {
                return i;
            }
            if !composite_lt(&self.entries[i].0, ck) {
                return i;
            }
            i = i + 1;
        }
    }

    /// The position of the entry carrying exactly `ck`, if any.
    fn scan_match(&self, ck: &CompositeKey) -> (r: Option<usize>)
        ensures
            match r {
                Option::Some(i) => i < self@.len() && self@[i as int].0 == ck@ && forall|j: int|
                    0 <= j < i ==> (#[trigger] self@[j]).0 != ck@,
                Option::None => forall|j: int|
                    0 <= j < self@.len() ==> (#[trigger] self@[j]).0 != ck@,
            },
    {
        let n = self.entries.len();
        let mut i: usize = 0;
        loop
            invariant
                i <= n,
                n == self@.len(),
                forall|j: int| 0 <= j < i ==> (#[trigger] self@[j]).0 != ck@,
            decreases n - i,
        {
            if i == n {
                return Option::None;
            }
            if composite_eq(&self.entries[i].0, ck) {
                return Option::Some(i);
            }
            i = i + 1;
        }
    }

    /// Upserts `value` under (prefix, key): a later add for an existing
    /// composite key overwrites the prior value, a new composite key is
    /// placed in sort order. Totals stay exact.
    pub fn add(&mut self, prefix: &str, key: KeyWrapper, value: V)
        requires
            old(self).wf(),
            old(self)@.len() < usize::MAX,
            old(self).size_tracker.prefix_size + encode_utf8(prefix@).len() <= usize::MAX,
            old(self).size_tracker.key_size + key_byte_size(key@) <= usize::MAX,
            old(self).size_tracker.value_size + V::view_byte_size(value@) <= usize::MAX,
        ensures
            final(self).wf(),
            final(self)@ == spec_upsert(
                old(self)@,
                (CompositeKeySpec { prefix: prefix@, key: key@ }),
                value@,
            ),
    {
        let ghost v0 = old(self)@;
        let ck = CompositeKey::new(prefix, key);
        let ghost k = ck@;
        let pb = prefix.as_bytes().len();
        let kb = key_wrapper_byte_size(&ck.key);
        let vb = value.byte_size();
        let n = self.entries.len();
        let i = self.scan_position(&ck);
        proof {
            lemma_spec_upsert_sorted(v0, k, value@);
        }
        if i < n && composite_eq(&self.entries[i].0, &ck) {
            proof {
                lemma_spec_upsert_at(v0, k, value@, i as int);
                lemma_totals_decompose::<V>(v0, i as int);
            }
            let old_entry = self.entries.remove(i);
            let ovb = old_entry.1.byte_size();
            self.size_tracker.subtract_value_size(ovb);
            self.size_tracker.add_value_size(vb);
            self.entries.insert(i, (ck, value));
            proof {
                assert(self@ =~= v0.update(i as int, (k, value@)));
                lemma_totals_decompose::<V>(self@, i as int);
                assert(self@.subrange(0, i as int) =~= v0.subrange(0, i as int));
                assert(self@.subrange(i + 1, self@.len() as int) =~= v0.subrange(
                    i + 1,
                    v0.len() as int,
                ));
            }
        } else {
            proof {
                if i < n {
                    lemma_ck_lt_connected(v0[i as int].0, k);
                }
                lemma_spec_upsert_at(v0, k, value@, i as int);
                lemma_totals_split::<V>(v0, i as int);
            }
            self.entries.insert(i, (ck, value));
            self.size_tracker.increment_item_count();
            self.size_tracker.add_prefix_size(pb);
            self.size_tracker.add_key_size(kb);
            self.size_tracker.add_value_size(vb);
            proof {
                assert(self@ =~= v0.insert(i as int, (k, value@)));
                lemma_totals_decompose::<V>(self@, i as int);
                assert(self@.subrange(0, i as int) =~= v0.subrange(0, i as int));
                assert(self@.subrange(i + 1, self@.len() as int) =~= v0.subrange(
                    i as int,
                    v0.len() as int,
                ));
            }
        }
    }

    /// Removes the entry under (prefix, key) if present; deleting an absent
    /// key is a no-op and leaves every total unchanged.
    pub fn delete(&mut self, prefix: &str, key: &KeyWrapper)
        requires
            old(self).wf(),
        ensures
            final(self).wf(),
            final(self)@ == spec_remove(
                old(self)@,
                (CompositeKeySpec { prefix: prefix@, key: key@ }),
            ),
    {
        let ghost v0 = old(self)@;
        let ck = CompositeKey::new(prefix, key.clone());
        let ghost k = ck@;
        proof {
            lemma_spec_remove_sorted(v0, k);
        }
        match self.scan_match(&ck) {
            Option::Some(i) => {
                proof {
                    lemma_spec_remove_at(v0, k, i as int);
                    lemma_totals_decompose::<V>(v0, i as int);
                }
                let old_entry = self.entries.remove(i);
                let opb = old_entry.0.prefix.as_str().as_bytes().len();
                let okb = key_wrapper_byte_size(&old_entry.0.key);
                let ovb = old_entry.1.byte_size();
                self.size_tracker.decrement_item_count();
                self.size_tracker.subtract_prefix_size(opb);
                self.size_tracker.subtract_key_size(okb);
                self.size_tracker.subtract_value_size(ovb);
                proof {
                    assert(self@ =~= v0.remove(i as int));
                    lemma_totals_split::<V>(self@, i as int);
                    assert(self@.subrange(0, i as int) =~= v0.subrange(0, i as int));
                    assert(self@.subrange(i as int, self@.len() as int) =~= v0.subrange(
                        i + 1,
                        v0.len() as int,
                    ));
                }
            },
            Option::None => {
                proof {
                    lemma_spec_remove_absent(v0, k);
                }
            },
        }
    }

    /// Looks up the value staged under (prefix, key).
    pub fn get(&self, prefix: &str, key: &KeyWrapper) -> (r: Option<&V>)
        ensures
            match r {
                Option::Some(v) => lookup(
                    self@,
                    (CompositeKeySpec { prefix: prefix@, key: key@ }),
                ) == Option::Some(v@),
                Option::None => lookup(
                    self@,
                    (CompositeKeySpec { prefix: prefix@, key: key@ }),
                ) == Option::None::<<V as View>::V>,
            },
    {
        let ck = CompositeKey::new(prefix, key.clone());
        match self.scan_match(&ck) {
            Option::Some(i) => {
                proof {
                    lemma_lookup_at(self@, ck@, i as int);
                }
                Option::Some(&self.entries[i].1)
            },
            Option::None => {
                proof {
                    lemma_lookup_absent(self@, ck@);
                }
                Option::None
            },
        }
    }
}

} // verus!

verus! {

/// After an upsert, the upserted key looks up to the new value and every
/// other key looks up to what it did before.
pub proof fn lemma_lookup_after_upsert<T>(
    s: Seq<(CompositeKeySpec, T)>,
    k: CompositeKeySpec,
    v: T,
    k2: CompositeKeySpec,
)
    requires
        entries_sorted(s),
    ensures
        lookup(spec_upsert(s, k, v), k2) == (if k2 == k {
            Option::Some(v)
        } else {
            lookup(s, k2)
        }),
    decreases s.len(),
{
    let res = spec_upsert(s, k, v);
    if s.len() == 0 {
        assert(res.skip(1) =~= Seq::<(CompositeKeySpec, T)>::empty());
    } else if ck_lt(k, s[0].0) {
        assert(res[0] == (k, v));
        assert(res.skip(1) =~= s);
    } else if k == s[0].0 {
        assert(res[0] == (k, v));
        assert(res.skip(1) =~= s.skip(1));
    } else {
        lemma_lookup_after_upsert(s.skip(1), k, v, k2);
        assert(res == seq![s[0]] + spec_upsert(s.skip(1), k, v));
        assert(res[0] == s[0]);
        assert(res.skip(1) =~= spec_upsert(s.skip(1), k, v));
    }
}

/// After a removal, the removed key looks up to nothing and every other key
/// looks up to what it did before.
pub proof fn lemma_lookup_after_remove<T>(
    s: Seq<(CompositeKeySpec, T)>,
    k: CompositeKeySpec,
    k2: CompositeKeySpec,
)
    requires
        entries_sorted(s),
    ensures
        lookup(spec_remove(s, k), k2) == (if k2 == k {
            Option::None
        } else {
            lookup(s, k2)
        }),
    decreases s.len(),
{
    let res = spec_remove(s, k);
    if s.len() == 0 {
    } else if s[0].0 == k {
        assert(res =~= s.skip(1));
        if k2 == k {
            assert forall|j: int| 0 <= j < s.skip(1).len() implies (#[trigger] s.skip(1)[j]).0
                != k by {
                assert(s.skip(1)[j] == s[j + 1]);
                assert(ck_lt(s[0].0, s[j + 1].0));
                lemma_ck_lt_asymmetric(s[0].0, s[j + 1].0);
            }
            lemma_lookup_absent(s.skip(1), k);
        }
    } else {
        lemma_lookup_after_remove(s.skip(1), k, k2);
        assert(res == seq![s[0]] + spec_remove(s.skip(1), k));
        assert(res[0] == s[0]);
        assert(res.skip(1) =~= spec_remove(s.skip(1), k));
    }
}

} // verus!

verus! {

proof fn lemma_totals_cons<V: StorageValue>(s: Seq<(CompositeKeySpec, <V as View>::V)>)
    requires
        s.len() > 0,
    ensures
        total_prefix_bytes(s) == encode_utf8(s[0].0.prefix).len() + total_prefix_bytes(s.skip(1)),
        total_key_bytes(s) == key_byte_size(s[0].0.key) + total_key_bytes(s.skip(1)),
        total_value_bytes::<V>(s) == V::view_byte_size(s[0].1) + total_value_bytes::<V>(s.skip(1)),
{
}

/// An upsert grows each total by at most the new entry's weight, and the
/// entry count by at most one.
pub proof fn lemma_spec_upsert_totals<V: StorageValue>(
    s: Seq<(CompositeKeySpec, <V as View>::V)>,
    k: CompositeKeySpec,
    v: <V as View>::V,
)
    ensures
        total_prefix_bytes(spec_upsert(s, k, v)) <= total_prefix_bytes(s) + encode_utf8(
            k.prefix,
        ).len(),
        total_key_bytes(spec_upsert(s, k, v)) <= total_key_bytes(s) + key_byte_size(k.key),
        total_value_bytes::<V>(spec_upsert(s, k, v)) <= total_value_bytes::<V>(s)
            + V::view_byte_size(v),
        spec_upsert(s, k, v).len() <= s.len() + 1,
    decreases s.len(),
{
    let res = spec_upsert(s, k, v);
    if s.len() == 0 {
        lemma_totals_cons::<V>(res);
        assert(res.skip(1) =~= Seq::<(CompositeKeySpec, <V as View>::V)>::empty());
    } else if ck_lt(k, s[0].0) {
        lemma_totals_cons::<V>(res);
        assert(res[0] == (k, v));
        assert(res.skip(1) =~= s);
    } else if k == s[0].0 {
        lemma_totals_cons::<V>(res);
        lemma_totals_cons::<V>(s);
        assert(res[0] == (k, v));
        assert(res.skip(1) =~= s.skip(1));
    } else {
        lemma_spec_upsert_totals::<V>(s.skip(1), k, v);
        lemma_totals_cons::<V>(res);
        lemma_totals_cons::<V>(s);
        assert(res == seq![s[0]] + spec_upsert(s.skip(1), k, v));
        assert(res[0] == s[0]);
        assert(res.skip(1) =~= spec_upsert(s.skip(1), k, v));
    }
}

/// A removal never grows any total nor the entry count.
pub proof fn lemma_spec_remove_totals<V: StorageValue>(
    s: Seq<(CompositeKeySpec, <V as View>::V)>,
    k: CompositeKeySpec,
)
    ensures
        total_prefix_bytes(spec_remove(s, k)) <= total_prefix_bytes(s),
        total_key_bytes(spec_remove(s, k)) <= total_key_bytes(s),
        total_value_bytes::<V>(spec_remove(s, k)) <= total_value_bytes::<V>(s),
        spec_remove(s, k).len() <= s.len(),
    decreases s.len(),
{
    let res = spec_remove(s, k);
    if s.len() == 0 {
    } else if s[0].0 == k {
        lemma_totals_cons::<V>(s);
    } else {
        lemma_spec_remove_totals::<V>(s.skip(1), k);
        lemma_totals_cons::<V>(res);
        lemma_totals_cons::<V>(s);
        assert(res == seq![s[0]] + spec_remove(s.skip(1), k));
        assert(res[0] == s[0]);
        assert(res.skip(1) =~= spec_remove(s.skip(1), k));
    }
}

} // verus!
