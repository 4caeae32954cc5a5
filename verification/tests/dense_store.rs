use instance_store::dense_store::DenseStore;
use instance_store::error::Error;

#[test]
fn empty_store() {
    let store: DenseStore<u32> = DenseStore::new();
    assert_eq!(store.len(), 0);
    assert_eq!(store.values(), &[] as &[u32]);
    assert_eq!(store.keys_by_index(), &[] as &[usize]);
}

#[test]
fn insert_appends_densely() {
    let mut store: DenseStore<u32> = DenseStore::new();
    let k1 = store.insert(10);
    let k2 = store.insert(20);
    let k3 = store.insert(30);
    assert_eq!(store.values(), &[10, 20, 30]);
    assert_eq!(store.keys_by_index(), &[k1, k2, k3]);
    assert_eq!(store.get(k1), Ok(&10));
    assert_eq!(store.get(k2), Ok(&20));
    assert_eq!(store.get(k3), Ok(&30));
}

#[test]
fn density_invariant_holds_after_traffic() {
    // after any sequence of inserts and removes, values and keys_by_index
    // stay the same length and every key points back at its own position
    let mut store: DenseStore<u32> = DenseStore::new();
    let mut keys = Vec::new();
    for v in 0..16u32 {
        keys.push(store.insert(v));
    }
    for chosen in [0usize, 3, 7, 15, 4] {
        assert_eq!(store.remove(keys[chosen]), Ok(()));
    }
    for v in 100..104u32 {
        keys.push(store.insert(v));
    }
    assert_eq!(store.values().len(), store.keys_by_index().len());
    assert_eq!(store.len(), 16 - 5 + 4);
    for (i, k) in store.keys_by_index().iter().enumerate() {
        assert_eq!(store.slot_table().get(*k), Ok(i));
    }
}

#[test]
fn handle_stability_under_other_traffic() {
    // a key keeps resolving to its own value until that exact key is removed
    let mut store: DenseStore<u32> = DenseStore::new();
    let k1 = store.insert(111);
    let k2 = store.insert(222);
    let k3 = store.insert(333);
    assert_eq!(store.remove(k1), Ok(()));
    let k4 = store.insert(444);
    assert_eq!(store.get(k2), Ok(&222));
    assert_eq!(store.get(k3), Ok(&333));
    assert_eq!(store.get(k4), Ok(&444));
    assert_eq!(store.remove(k3), Ok(()));
    assert_eq!(store.get(k2), Ok(&222));
    assert_eq!(store.get(k4), Ok(&444));
}

#[test]
fn swap_remove_relocates_last_element() {
    // removing a non-tail element moves the former last element into the
    // vacated index, and that element's key now reports the new index
    let mut store: DenseStore<u32> = DenseStore::new();
    let k1 = store.insert(1);
    let _k2 = store.insert(2);
    let k3 = store.insert(3);
    assert_eq!(store.slot_table().get(k3), Ok(2));
    assert_eq!(store.remove(k1), Ok(()));
    assert_eq!(store.values(), &[3, 2]);
    assert_eq!(store.slot_table().get(k3), Ok(0));
    assert_eq!(store.get(k3), Ok(&3));
}

#[test]
fn removing_only_element() {
    let mut store: DenseStore<u32> = DenseStore::new();
    let k = store.insert(7);
    assert_eq!(store.remove(k), Ok(()));
    assert_eq!(store.len(), 0);
    assert_eq!(store.get(k), Err(Error::InvalidKey));
}

#[test]
fn removing_last_element_needs_no_swap() {
    let mut store: DenseStore<u32> = DenseStore::new();
    let k1 = store.insert(1);
    let k2 = store.insert(2);
    assert_eq!(store.remove(k2), Ok(()));
    assert_eq!(store.values(), &[1]);
    assert_eq!(store.slot_table().get(k1), Ok(0));
}

#[test]
fn repeated_removal_fails_without_mutating() {
    // removing an already-released key fails with InvalidKey every time and
    // leaves the store untouched
    let mut store: DenseStore<u32> = DenseStore::new();
    let k1 = store.insert(5);
    let k2 = store.insert(6);
    assert_eq!(store.remove(k1), Ok(()));
    for _ in 0..3 {
        assert_eq!(store.remove(k1), Err(Error::InvalidKey));
        assert_eq!(store.values(), &[6]);
        assert_eq!(store.keys_by_index(), &[k2]);
    }
    assert_eq!(store.get(k2), Ok(&6));
}

#[test]
fn never_issued_key_is_invalid() {
    let mut store: DenseStore<u32> = DenseStore::new();
    let _k = store.insert(1);
    assert_eq!(store.remove(999), Err(Error::InvalidKey));
    assert_eq!(store.get(999), Err(Error::InvalidKey));
    assert_eq!(store.slot_table().get(999), Err(Error::InvalidKey));
}

#[test]
fn concrete_scenario() {
    // insert A, B, C; remove the first; insert D; remove the second
    let mut store: DenseStore<&str> = DenseStore::new();
    let k1 = store.insert("A");
    let k2 = store.insert("B");
    let k3 = store.insert("C");
    assert_eq!(store.values(), &["A", "B", "C"]);
    assert_eq!(store.remove(k1), Ok(()));
    assert_eq!(store.values(), &["C", "B"]);
    assert_eq!(store.slot_table().get(k3), Ok(0));
    let k4 = store.insert("D");
    assert_eq!(store.values(), &["C", "B", "D"]);
    assert_eq!(store.remove(k2), Ok(()));
    assert_eq!(store.values(), &["C", "D"]);
    assert_eq!(store.get(k4), Ok(&"D"));
}

#[test]
fn insert_remove_cycles_do_not_leak() {
    // keys are reused after release, so heavy churn keeps both sequences in
    // lockstep and the key space bounded
    let mut store: DenseStore<u32> = DenseStore::new();
    let mut max_key = 0usize;
    for round in 0..1000u32 {
        let k = store.insert(round);
        if k > max_key {
            max_key = k;
        }
        assert_eq!(store.remove(k), Ok(()));
    }
    assert_eq!(store.len(), 0);
    assert_eq!(store.values().len(), store.keys_by_index().len());
    assert!(max_key < 2);
}
