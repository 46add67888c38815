use blockstore::block::{finish_bool_delta, finish_string_delta, finish_u32_delta};
use blockstore::delta::{ArrowWriteableValue, BlockDelta};
use blockstore::key::KeyWrapper;

fn str_key(k: &str) -> KeyWrapper {
    KeyWrapper::Str(k.to_string())
}

#[test]
fn add_add_delete_finalize_keeps_one_entry() {
    let mut delta = BlockDelta::new::<String>(7);
    delta.add("c1", str_key("a"), "hello".to_string());
    delta.add("c1", str_key("b"), "world".to_string());
    delta.delete::<String>("c1", &str_key("a"));
    let block = finish_string_delta(delta);
    assert_eq!(block.len(), 1);
    assert_eq!(block.get(0), "world");
    assert_eq!(block.key_at(0).prefix, "c1");
    assert_eq!(block.id, 7);
}

#[test]
fn string_offset_buffer_is_padded_to_alignment() {
    // (3 + 1) * 4 = 16 bytes of offsets, padded up to the 64-byte boundary.
    assert_eq!(<String as ArrowWriteableValue>::offset_size(3), 64);
    assert_eq!(<String as ArrowWriteableValue>::offset_size(0), 64);
    assert_eq!(<String as ArrowWriteableValue>::offset_size(16), 128);
    assert_eq!(<String as ArrowWriteableValue>::validity_size(3), 0);
}

#[test]
fn fixed_width_types_have_no_offset_buffer() {
    assert_eq!(<u32 as ArrowWriteableValue>::offset_size(3), 0);
    assert_eq!(<u32 as ArrowWriteableValue>::validity_size(3), 0);
    assert_eq!(<bool as ArrowWriteableValue>::offset_size(3), 0);
    // One bit per item, padded to the 64-byte boundary.
    assert_eq!(<bool as ArrowWriteableValue>::validity_size(3), 64);
}

#[test]
fn string_round_trip_is_sorted_by_key() {
    let mut delta = BlockDelta::new::<String>(1);
    delta.add("p", str_key("delta"), "4".to_string());
    delta.add("p", str_key("alpha"), "1".to_string());
    delta.add("p", str_key("charlie"), "3".to_string());
    delta.add("p", str_key("bravo"), "2".to_string());
    let block = finish_string_delta(delta);
    assert_eq!(block.len(), 4);
    let mut keys = Vec::new();
    let mut values = Vec::new();
    for i in 0..block.len() {
        match &block.key_at(i).key {
            KeyWrapper::Str(s) => keys.push(s.clone()),
            _ => panic!("unexpected key type"),
        }
        values.push(block.get(i).to_string());
    }
    assert_eq!(keys, vec!["alpha", "bravo", "charlie", "delta"]);
    assert_eq!(values, vec!["1", "2", "3", "4"]);
}

#[test]
fn prefixes_order_before_keys() {
    let mut delta = BlockDelta::new::<String>(1);
    delta.add("t2", str_key("a"), "3".to_string());
    delta.add("t1", str_key("z"), "2".to_string());
    delta.add("t1", str_key("a"), "1".to_string());
    let block = finish_string_delta(delta);
    assert_eq!(block.len(), 3);
    assert_eq!(block.get(0), "1");
    assert_eq!(block.get(1), "2");
    assert_eq!(block.get(2), "3");
    assert_eq!(block.key_at(0).prefix, "t1");
    assert_eq!(block.key_at(2).prefix, "t2");
}

#[test]
fn upsert_overwrites_in_place() {
    let mut delta = BlockDelta::new::<String>(1);
    delta.add("c", str_key("k"), "first".to_string());
    delta.add("c", str_key("k"), "second".to_string());
    let block = finish_string_delta(delta);
    assert_eq!(block.len(), 1);
    assert_eq!(block.get(0), "second");
}

#[test]
fn u32_round_trip() {
    let mut delta = BlockDelta::new::<u32>(2);
    delta.add("c", KeyWrapper::Uint(9), 900);
    delta.add("c", KeyWrapper::Uint(3), 300);
    delta.add("c", KeyWrapper::Uint(5), 500);
    delta.delete::<u32>("c", &KeyWrapper::Uint(5));
    let block = finish_u32_delta(delta);
    assert_eq!(block.len(), 2);
    assert_eq!(block.get(0), 300);
    assert_eq!(block.get(1), 900);
}

#[test]
fn bool_round_trip() {
    let mut delta = BlockDelta::new::<bool>(3);
    delta.add("c", KeyWrapper::Bool(true), false);
    delta.add("c", KeyWrapper::Bool(false), true);
    let block = finish_bool_delta(delta);
    assert_eq!(block.len(), 2);
    // false orders before true.
    assert!(block.get(0));
    assert!(!block.get(1));
}

#[test]
fn add_to_delta_merges_frozen_entries() {
    let mut delta = BlockDelta::new::<String>(1);
    delta.add("c", str_key("a"), "old-a".to_string());
    delta.add("c", str_key("b"), "old-b".to_string());
    let frozen = finish_string_delta(delta);

    let mut next = BlockDelta::new::<String>(2);
    next.add("c", str_key("b"), "new-b".to_string());
    frozen.add_to_delta(0, &mut next);
    let merged = finish_string_delta(next);
    assert_eq!(merged.len(), 2);
    assert_eq!(merged.get(0), "old-a");
    assert_eq!(merged.get(1), "new-b");
}

#[test]
fn shared_array_survives_the_block() {
    let mut delta = BlockDelta::new::<String>(1);
    delta.add("c", str_key("a"), "payload".to_string());
    let block = finish_string_delta(delta);
    let shared = block.share_values();
    drop(block);
    // The reference-counted array outlives the block that produced it.
    let _still_here = shared;
}

#[test]
fn empty_delta_finalizes_to_empty_block() {
    let delta = BlockDelta::new::<String>(0);
    let block = finish_string_delta(delta);
    assert_eq!(block.len(), 0);
}
