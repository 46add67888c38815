use blockstore::key::{composite_lt, str_eq, str_lt, CompositeKey, KeyWrapper};
use blockstore::storage::SingleColumnStorage;

fn str_key(k: &str) -> KeyWrapper {
    KeyWrapper::Str(k.to_string())
}

#[test]
fn string_order_is_lexicographic() {
    assert!(str_lt("a", "b"));
    assert!(str_lt("a", "ab"));
    assert!(!str_lt("b", "ab"));
    assert!(!str_lt("", ""));
    assert!(str_lt("", "a"));
    assert!(str_eq("same", "same"));
    assert!(!str_eq("same", "sameer"));
}

#[test]
fn composite_order_is_prefix_first() {
    let a = CompositeKey::new("p1", str_key("z"));
    let b = CompositeKey::new("p2", str_key("a"));
    assert!(composite_lt(&a, &b));
    assert!(!composite_lt(&b, &a));
    let c = CompositeKey::new("p1", str_key("a"));
    assert!(composite_lt(&c, &a));
}

#[test]
fn upsert_keeps_one_entry_and_latest_value() {
    let mut s: SingleColumnStorage<String> = SingleColumnStorage::new();
    s.add("c", str_key("k"), "first".to_string());
    let t1 = s.get_size_tracker();
    s.add("c", str_key("k"), "second!".to_string());
    let t2 = s.get_size_tracker();
    assert_eq!(s.len(), 1);
    // The item count is unaffected by the second add.
    assert_eq!(t1.num_items, 1);
    assert_eq!(t2.num_items, 1);
    // The byte totals reflect only the latest value.
    assert_eq!(t1.value_size, "first".len());
    assert_eq!(t2.value_size, "second!".len());
    assert_eq!(t2.prefix_size, 1);
    assert_eq!(t2.key_size, 1);
    assert_eq!(s.get("c", &str_key("k")), Some(&"second!".to_string()));
}

#[test]
fn delete_then_add_restores_one_entry() {
    let mut s: SingleColumnStorage<String> = SingleColumnStorage::new();
    s.add("c", str_key("k"), "v1".to_string());
    s.delete("c", &str_key("k"));
    assert_eq!(s.len(), 0);
    assert_eq!(s.get_size_tracker().value_size, 0);
    assert_eq!(s.get_size_tracker().prefix_size, 0);
    assert_eq!(s.get_size_tracker().key_size, 0);
    s.add("c", str_key("k"), "v2".to_string());
    assert_eq!(s.len(), 1);
    assert_eq!(s.get("c", &str_key("k")), Some(&"v2".to_string()));
}

#[test]
fn deleting_an_absent_key_changes_nothing() {
    let mut s: SingleColumnStorage<String> = SingleColumnStorage::new();
    s.add("c", str_key("present"), "value".to_string());
    let before = s.get_size_tracker();
    s.delete("c", &str_key("missing"));
    s.delete("other", &str_key("present"));
    let after = s.get_size_tracker();
    assert_eq!(s.len(), 1);
    assert_eq!(before.num_items, after.num_items);
    assert_eq!(before.prefix_size, after.prefix_size);
    assert_eq!(before.key_size, after.key_size);
    assert_eq!(before.value_size, after.value_size);
}

#[test]
fn tracker_totals_are_exact_sums() {
    let mut s: SingleColumnStorage<String> = SingleColumnStorage::new();
    s.add("pre", str_key("aa"), "12345".to_string());
    s.add("pre", str_key("bbb"), "678".to_string());
    s.add("q", str_key("aa"), "9".to_string());
    s.delete("pre", &str_key("aa"));
    let t = s.get_size_tracker();
    assert_eq!(t.num_items, 2);
    assert_eq!(t.prefix_size, "pre".len() + "q".len());
    assert_eq!(t.key_size, "bbb".len() + "aa".len());
    assert_eq!(t.value_size, "678".len() + "9".len());
}

#[test]
fn get_returns_none_for_missing_keys() {
    let mut s: SingleColumnStorage<u32> = SingleColumnStorage::new();
    s.add("c", KeyWrapper::Uint(1), 10);
    assert_eq!(s.get("c", &KeyWrapper::Uint(1)), Some(&10));
    assert_eq!(s.get("c", &KeyWrapper::Uint(2)), None);
    assert_eq!(s.get("d", &KeyWrapper::Uint(1)), None);
}

#[test]
fn iteration_order_is_sorted_after_random_ops() {
    let mut s: SingleColumnStorage<u32> = SingleColumnStorage::new();
    let keys: [u32; 7] = [5, 1, 9, 3, 7, 1, 9];
    for (i, k) in keys.iter().enumerate() {
        s.add("c", KeyWrapper::Uint(*k), i as u32);
    }
    s.delete("c", &KeyWrapper::Uint(3));
    let mut seen: Vec<u32> = Vec::new();
    for i in 0..s.len() {
        match &s.entry_at(i).0.key {
            KeyWrapper::Uint(k) => seen.push(*k),
            _ => panic!("unexpected key type"),
        }
    }
    assert_eq!(seen, vec![1, 5, 7, 9]);
}

#[test]
fn key_variants_order_by_rank() {
    let s = CompositeKey::new("p", str_key("zzz"));
    let u = CompositeKey::new("p", KeyWrapper::Uint(0));
    let b = CompositeKey::new("p", KeyWrapper::Bool(false));
    assert!(composite_lt(&s, &u));
    assert!(composite_lt(&u, &b));
    assert!(composite_lt(&s, &b));
    assert!(!composite_lt(&b, &s));
}
