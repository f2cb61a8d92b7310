use rapidhash::{
    RapidHashBuilder, RapidHashMap, RapidHashSet, RapidInlineHashBuilder, RapidInlineHashMap,
    RapidInlineHashSet, RapidRandomState,
};
use std::collections::HashMap;
use std::hash::{BuildHasher, Hasher};

#[test]
fn default_builders_start_from_the_default_seed() {
    let mut hasher = RapidHashBuilder::default().build_hasher();
    hasher.write(b"hello world");
    assert_eq!(hasher.finish(), 17498481775468162579);
    let mut hasher = RapidInlineHashBuilder::default().build_hasher();
    hasher.write(b"hello world");
    assert_eq!(hasher.finish(), 17498481775468162579);
}

#[test]
fn maps_and_sets_work() {
    let mut map = RapidHashMap::default();
    map.insert(42, "the answer");
    assert_eq!(map.get(&42), Some(&"the answer"));
    let mut set = RapidHashSet::default();
    set.insert("the answer");
    assert!(set.contains("the answer"));

    let mut map = RapidInlineHashMap::default();
    map.insert(42, "the answer");
    assert_eq!(map.get(&42), Some(&"the answer"));
    let mut set = RapidInlineHashSet::default();
    set.insert("the answer");
    assert!(set.contains("the answer"));

    let mut map = HashMap::with_hasher(RapidRandomState::default());
    for i in 0..1000 {
        map.insert(i, i * 2);
    }
    for i in 0..1000 {
        assert_eq!(map.get(&i), Some(&(i * 2)));
    }
}
