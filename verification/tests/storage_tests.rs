use runtime_module::codec::{bytes_clone, bytes_eq, Codec};
use runtime_module::keys::{fnv1a_digest, hash_encoded_key, HashStrategy, KeySpace, FNV_OFFSET};
use runtime_module::storage::{StorageMap, StorageValue};
use runtime_module::store::Store;

#[test]
fn u32_encode_exact_bytes() {
    assert_eq!(0x01020304u32.encode(), vec![0x04, 0x03, 0x02, 0x01]);
    assert_eq!(0u32.encode(), vec![0, 0, 0, 0]);
}

#[test]
fn u32_round_trip() {
    for x in [0u32, 1, 9, 10, 15, 0xdead_beef, u32::MAX] {
        assert_eq!(u32::decode(x.encode().as_slice()), Some(x));
    }
}

#[test]
fn u32_decode_rejects_wrong_length() {
    assert_eq!(u32::decode(&[]), None);
    assert_eq!(u32::decode(&[1, 2, 3]), None);
    assert_eq!(u32::decode(&[1, 2, 3, 4, 5]), None);
}

#[test]
fn u64_encode_exact_bytes() {
    assert_eq!(
        0x0102030405060708u64.encode(),
        vec![0x08, 0x07, 0x06, 0x05, 0x04, 0x03, 0x02, 0x01]
    );
}

#[test]
fn u64_round_trip() {
    for x in [0u64, 3, 10, u64::MAX] {
        assert_eq!(u64::decode(x.encode().as_slice()), Some(x));
    }
    assert_eq!(u64::decode(&[1, 2, 3]), None);
}

#[test]
fn bytes_helpers() {
    let a = vec![1u8, 2, 3];
    let b = vec![1u8, 2, 3];
    let c = vec![1u8, 2, 4];
    assert!(bytes_eq(&a, &b));
    assert!(!bytes_eq(&a, &c));
    assert!(!bytes_eq(&a, &vec![1u8, 2]));
    assert_eq!(bytes_clone(&a), a);
}

#[test]
fn fnv_digest_known_values() {
    assert_eq!(fnv1a_digest(&vec![]), FNV_OFFSET);
    assert_eq!(fnv1a_digest(&vec![0x61]), 0xaf63dc4c8601ec8c);
}

#[test]
fn hash_strategies() {
    let key = 7u32.encode();
    assert_eq!(hash_encoded_key(&HashStrategy::Transparent, key.clone()), key);
    let concat = hash_encoded_key(&HashStrategy::FnvConcat, key.clone());
    assert_eq!(concat.len(), 8 + key.len());
    assert_eq!(&concat[8..], key.as_slice());
    assert_eq!(&concat[..8], fnv1a_digest(&key).encode().as_slice());
}

#[test]
fn key_space_prefix_is_length_prefixed() {
    let space = KeySpace::new(vec![1, 2], vec![3]);
    assert_eq!(space.prefix_bytes(), vec![2, 1, 2, 1, 3]);
}

#[test]
fn distinct_spaces_give_distinct_physical_keys() {
    let a = StorageValue::new(KeySpace::new(vec![1], vec![10]), 0u64);
    let b = StorageValue::new(KeySpace::new(vec![1], vec![11]), 0u64);
    let c = StorageValue::new(KeySpace::new(vec![2], vec![10]), 0u64);
    assert_ne!(a.physical_key(), b.physical_key());
    assert_ne!(a.physical_key(), c.physical_key());
    assert_ne!(b.physical_key(), c.physical_key());
}

#[test]
fn nested_names_do_not_collide() {
    // "ab" + "c" versus "a" + "bc": length prefixes keep them apart.
    let a = StorageValue::new(KeySpace::new(vec![0x61, 0x62], vec![0x63]), 0u64);
    let b = StorageValue::new(KeySpace::new(vec![0x61], vec![0x62, 0x63]), 0u64);
    assert_ne!(a.physical_key(), b.physical_key());
}

#[test]
fn store_write_read_remove() {
    let mut store = Store::new();
    let key = vec![9u8, 9];
    assert_eq!(store.read(&key), None);
    store.write(key.clone(), vec![1, 2]);
    assert_eq!(store.read(&key), Some(vec![1, 2]));
    store.write(key.clone(), vec![3]);
    assert_eq!(store.read(&key), Some(vec![3]));
    store.remove(&key);
    assert_eq!(store.read(&key), None);
}

#[test]
fn store_keys_are_independent() {
    let mut store = Store::new();
    store.write(vec![1], vec![10]);
    store.write(vec![2], vec![20]);
    store.remove(&vec![1]);
    assert_eq!(store.read(&vec![1]), None);
    assert_eq!(store.read(&vec![2]), Some(vec![20]));
}

#[test]
fn storage_value_default_and_set() {
    let item = StorageValue::new(KeySpace::new(vec![7], vec![1]), 3u64);
    let mut store = Store::new();
    assert_eq!(item.get(&store), 3);
    item.set(&mut store, 42);
    assert_eq!(item.get(&store), 42);
    item.set(&mut store, 5);
    assert_eq!(item.get(&store), 5);
    item.remove(&mut store);
    assert_eq!(item.get(&store), 3);
}

#[test]
fn storage_value_reads_are_idempotent() {
    let item = StorageValue::new(KeySpace::new(vec![7], vec![1]), 3u64);
    let mut store = Store::new();
    assert_eq!(item.get(&store), item.get(&store));
    item.set(&mut store, 11);
    assert_eq!(item.get(&store), item.get(&store));
    assert_eq!(item.get(&store), 11);
}

#[test]
fn storage_map_point_lookups() {
    let map: StorageMap<u32, u32> =
        StorageMap::new(KeySpace::new(vec![7], vec![2]), HashStrategy::FnvConcat);
    let mut store = Store::new();
    assert_eq!(map.get(&store, &1), None);
    map.insert(&mut store, 1, 100);
    map.insert(&mut store, 2, 200);
    assert_eq!(map.get(&store, &1), Some(100));
    assert_eq!(map.get(&store, &2), Some(200));
    map.insert(&mut store, 1, 101);
    assert_eq!(map.get(&store, &1), Some(101));
    map.remove(&mut store, &1);
    assert_eq!(map.get(&store, &1), None);
    assert_eq!(map.get(&store, &2), Some(200));
}

#[test]
fn storage_map_transparent_strategy() {
    let map: StorageMap<u32, u32> =
        StorageMap::new(KeySpace::new(vec![7], vec![2]), HashStrategy::Transparent);
    let mut store = Store::new();
    map.insert(&mut store, 5, 50);
    assert_eq!(map.get(&store, &5), Some(50));
    assert_eq!(map.get(&store, &6), None);
}

#[test]
fn value_and_map_in_one_module_do_not_clash() {
    let value = StorageValue::new(KeySpace::new(vec![7], vec![1]), 3u64);
    let map: StorageMap<u32, u32> =
        StorageMap::new(KeySpace::new(vec![7], vec![1]), HashStrategy::Transparent);
    let mut store = Store::new();
    value.set(&mut store, 9);
    map.insert(&mut store, 0, 77);
    assert_eq!(value.get(&store), 9);
    assert_eq!(map.get(&store, &0), Some(77));
}
