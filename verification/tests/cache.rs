use rocket_include_tera::EntityTag;
use rocket_include_tera::RenderedCache;

fn tag(v: &str) -> EntityTag {
    EntityTag::new(false, String::from(v)).unwrap()
}

#[test]
fn lru_eviction_evicts_least_recent() {
    // Inserting capacity + 1 distinct keys evicts exactly the
    // least-recently-inserted key, and the size never exceeds the capacity.
    let mut c = RenderedCache::with_capacity(2);
    assert!(c.insert(String::from("k1"), String::from("v1"), tag("t1")).is_none());
    assert!(c.insert(String::from("k2"), String::from("v2"), tag("t2")).is_none());
    assert_eq!(c.size(), 2);
    assert!(c.insert(String::from("k3"), String::from("v3"), tag("t3")).is_none());
    assert_eq!(c.size(), 2);
    assert!(!c.contains_key(&String::from("k1")));
    assert!(c.contains_key(&String::from("k2")));
    assert!(c.contains_key(&String::from("k3")));
}

#[test]
fn insert_existing_replaces_and_promotes() {
    let mut c = RenderedCache::with_capacity(2);
    c.insert(String::from("k1"), String::from("v1"), tag("t1"));
    c.insert(String::from("k2"), String::from("v2"), tag("t2"));
    // Re-inserting k1 replaces its pair, returns the old one, and makes k1
    // most recently used, so the next eviction takes k2.
    let prev = c.insert(String::from("k1"), String::from("v1b"), tag("t1b")).unwrap();
    assert_eq!(prev.0, "v1");
    assert_eq!(prev.1.tag, "t1");
    c.insert(String::from("k3"), String::from("v3"), tag("t3"));
    assert!(c.contains_key(&String::from("k1")));
    assert!(!c.contains_key(&String::from("k2")));
    assert!(c.contains_key(&String::from("k3")));
    let got = c.get(&String::from("k1")).unwrap();
    assert_eq!(got.0, "v1b");
    assert_eq!(got.1.tag, "t1b");
}

#[test]
fn read_does_not_promote() {
    // Recency moves on writes only: reading k1 does not save it from
    // eviction.
    let mut c = RenderedCache::with_capacity(2);
    c.insert(String::from("k1"), String::from("v1"), tag("t1"));
    c.insert(String::from("k2"), String::from("v2"), tag("t2"));
    assert!(c.get(&String::from("k1")).is_some());
    c.insert(String::from("k3"), String::from("v3"), tag("t3"));
    assert!(!c.contains_key(&String::from("k1")));
    assert!(c.contains_key(&String::from("k2")));
}

#[test]
fn capacity_zero_disables_caching() {
    // With capacity zero, insert always returns None and contains is always
    // false, whatever was inserted before.
    let mut c = RenderedCache::with_capacity(0);
    assert!(c.insert(String::from("k"), String::from("v"), tag("t")).is_none());
    assert!(c.insert(String::from("k"), String::from("w"), tag("u")).is_none());
    assert!(!c.contains_key(&String::from("k")));
    assert!(c.get(&String::from("k")).is_none());
    assert_eq!(c.size(), 0);
    assert_eq!(c.capacity(), 0);
}

#[test]
fn clear_empties_but_keeps_capacity() {
    let mut c = RenderedCache::with_capacity(3);
    c.insert(String::from("k1"), String::from("v1"), tag("t1"));
    c.insert(String::from("k2"), String::from("v2"), tag("t2"));
    c.clear();
    assert_eq!(c.size(), 0);
    assert_eq!(c.capacity(), 3);
    assert!(!c.contains_key(&String::from("k1")));
}

#[test]
fn get_returns_the_stored_pair() {
    let mut c = RenderedCache::with_capacity(4);
    c.insert(String::from("k"), String::from("body"), tag("etag"));
    let (content, t) = c.get(&String::from("k")).unwrap();
    assert_eq!(content, "body");
    assert_eq!(t.tag, "etag");
    assert!(!t.weak);
    assert!(c.get(&String::from("missing")).is_none());
}

#[test]
fn last_insert_wins_whole() {
    // Two fills for one key, in sequence: the later pair wins as a whole,
    // never a mix of the two.
    let mut c = RenderedCache::with_capacity(2);
    c.insert(String::from("k"), String::from("body-one"), tag("tag-one"));
    c.insert(String::from("k"), String::from("body-two"), tag("tag-two"));
    assert_eq!(c.size(), 1);
    let (content, t) = c.get(&String::from("k")).unwrap();
    assert_eq!(content, "body-two");
    assert_eq!(t.tag, "tag-two");
}

#[test]
fn capacity_one_keeps_only_the_latest() {
    let mut c = RenderedCache::with_capacity(1);
    c.insert(String::from("k1"), String::from("v1"), tag("t1"));
    c.insert(String::from("k2"), String::from("v2"), tag("t2"));
    assert_eq!(c.size(), 1);
    assert!(!c.contains_key(&String::from("k1")));
    assert_eq!(c.get(&String::from("k2")).unwrap().0, "v2");
}
