use kitties::KvMap;

#[test]
fn kvmap_insert_get_and_overwrite() {
    let mut m: KvMap<u64> = KvMap::new();
    assert_eq!(m.len(), 0);
    assert_eq!(m.contains_key(3), false);
    assert_eq!(m.get(3), None);

    m.insert(3, 30);
    m.insert(4, 40);
    assert_eq!(m.len(), 2);
    assert_eq!(m.contains_key(3), true);
    assert_eq!(m.get(3), Some(&30));
    assert_eq!(m.get(4), Some(&40));

    m.insert(3, 31);
    assert_eq!(m.len(), 2);
    assert_eq!(m.get(3), Some(&31));
}

#[test]
fn kvmap_keys_lists_each_key_once() {
    let mut m: KvMap<u64> = KvMap::new();
    m.insert(2, 20);
    m.insert(7, 70);
    m.insert(2, 21);
    let mut ks = m.keys();
    ks.sort();
    assert_eq!(ks, vec![2, 7]);
}
