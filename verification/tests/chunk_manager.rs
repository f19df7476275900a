use std::collections::BTreeMap;

use rusticsearch::{ChunkManager, StorePut};

fn apply(store: &mut BTreeMap<Vec<u8>, Vec<u8>>, put: StorePut) {
    store.insert(put.key, put.value);
}

fn counter_value(store: &BTreeMap<Vec<u8>, Vec<u8>>) -> Vec<u8> {
    store.get(b".next_chunk".as_slice()).unwrap().clone()
}

#[test]
fn test_initialize_then_allocate_three_ids() {
    let mut store: BTreeMap<Vec<u8>, Vec<u8>> = BTreeMap::new();
    let (mut manager, put) = ChunkManager::new();
    apply(&mut store, put);
    assert_eq!(counter_value(&store), b"1".to_vec());

    let (id, put) = manager.new_chunk();
    apply(&mut store, put);
    assert_eq!(id, 1);
    assert_eq!(counter_value(&store), b"2".to_vec());

    let (id, put) = manager.new_chunk();
    apply(&mut store, put);
    assert_eq!(id, 2);
    assert_eq!(counter_value(&store), b"3".to_vec());

    let (id, put) = manager.new_chunk();
    apply(&mut store, put);
    assert_eq!(id, 3);
    assert_eq!(counter_value(&store), b"4".to_vec());
}

#[test]
fn test_reopen_resumes_from_durable_counter() {
    let mut store: BTreeMap<Vec<u8>, Vec<u8>> = BTreeMap::new();
    let (mut manager, put) = ChunkManager::new();
    apply(&mut store, put);
    for _ in 0..5 {
        let (_, put) = manager.new_chunk();
        apply(&mut store, put);
    }
    let mut reopened = ChunkManager::open(store.get(b".next_chunk".as_slice()));
    let (id, _) = reopened.new_chunk();
    assert_eq!(id, 6);
}

#[test]
fn test_open_falls_back_to_one() {
    assert_eq!(ChunkManager::open(None).next_chunk, 1);
    assert_eq!(ChunkManager::open(Some(&b"garbage".to_vec())).next_chunk, 1);
    assert_eq!(ChunkManager::open(Some(&b"".to_vec())).next_chunk, 1);
    assert_eq!(ChunkManager::open(Some(&b"-3".to_vec())).next_chunk, 1);
    assert_eq!(ChunkManager::open(Some(&b"99999999999".to_vec())).next_chunk, 1);
    assert_eq!(ChunkManager::open(Some(&b"42".to_vec())).next_chunk, 42);
}

#[test]
fn test_active_chunk_enumeration() {
    // A snapshot scan from the prefix 'a' over marker keys for ids 1, 2 and
    // 5, followed by an unrelated key with a different first byte.
    let store: Vec<Vec<u8>> =
        vec![b"a1".to_vec(), b"a2".to_vec(), b"a5".to_vec(), b"b9".to_vec()];
    let manager = ChunkManager::open(None);
    let mut iter = manager.iter_active(store);
    let mut ids: Vec<u32> = Vec::new();
    while let Some(id) = iter.next() {
        ids.push(id);
    }
    assert_eq!(ids, vec![1, 2, 5]);
    // Once fused, the iterator stays exhausted.
    assert_eq!(iter.next(), None);
    assert_eq!(iter.next(), None);
}

#[test]
fn test_active_chunk_enumeration_stops_at_first_non_marker() {
    let store: Vec<Vec<u8>> = vec![b"a1".to_vec(), b"b2".to_vec(), b"a3".to_vec()];
    let manager = ChunkManager::open(None);
    let mut iter = manager.iter_active(store);
    assert_eq!(iter.next(), Some(1));
    assert_eq!(iter.next(), None);
    assert_eq!(iter.next(), None);
}

#[test]
fn test_active_chunk_enumeration_of_empty_scan() {
    let manager = ChunkManager::open(None);
    let mut iter = manager.iter_active(Vec::new());
    assert_eq!(iter.next(), None);
}

#[test]
fn test_open_at_largest_chunk_id() {
    let manager = ChunkManager::open(Some(&b"4294967295".to_vec()));
    assert_eq!(manager.next_chunk, u32::MAX);
    // One past the largest id no longer parses as a chunk id.
    assert_eq!(ChunkManager::open(Some(&b"4294967296".to_vec())).next_chunk, 1);
}
