use std::collections::{BTreeSet, HashSet};

use module::error::ErrorKind;
use module::keymap::KeyMap;
use module::merge::Merge;
use module::Error;

#[derive(Debug, Default, Clone, Copy, PartialEq, Eq)]
struct Merged(bool);

impl Merge for Merged {
    fn merge_ref(&mut self, _other: Self) -> Result<(), Error> {
        self.0 = true;
        Ok(())
    }
}

fn from_keys(keys: &[&str]) -> KeyMap<Merged> {
    let mut m = KeyMap::new();
    for k in keys {
        m.insert(k.to_string(), Merged::default());
    }
    m
}

fn check_union(c: &KeyMap<Merged>) {
    let expected = [
        ("key1", Merged(true)),
        ("key2", Merged(true)),
        ("key3", Merged(false)),
        ("key4", Merged(false)),
        ("key5", Merged(false)),
        ("key6", Merged(false)),
        ("key7", Merged(true)),
    ];
    assert_eq!(expected.len(), c.len());
    for (k, v) in expected {
        assert_eq!(c.get(k).unwrap().0, v.0, "key: {k}");
    }
}

#[test]
fn alloc_test_box() {
    let a = Box::new(Merged(false));
    let b = Box::new(Merged(false));

    let c = a.merge(b).unwrap();
    assert!((*c).0);
}

#[test]
fn alloc_test_vec() {
    let a = vec![1, 2, 5, 7, 0];
    let b = vec![2, 8, 9, 10];

    let c = a.merge(b).unwrap();
    assert_eq!(c, &[1, 2, 5, 7, 0, 2, 8, 9, 10]);
}

#[test]
fn alloc_test_btree_map() {
    let a = from_keys(&["key1", "key2", "key3", "key4", "key7"]);
    let b = from_keys(&["key5", "key1", "key7", "key2", "key6"]);

    let c = a.merge(b).unwrap();
    check_union(&c);
}

#[test]
fn test_hash_map() {
    let a = from_keys(&["key1", "key2", "key3", "key4", "key7"]);
    let b = from_keys(&["key5", "key1", "key7", "key2", "key6"]);

    let c = a.merge(b).unwrap();
    check_union(&c);
}

#[test]
fn alloc_test_btree_set() {
    let a: BTreeSet<i32> = [1, 2, 5, 7, 0, 10].into_iter().collect();
    let b: BTreeSet<i32> = [2, 8, 9, 10, 5].into_iter().collect();

    let mut c: Vec<i32> = a.merge(b).unwrap().into_iter().collect();
    c.sort_unstable();
    assert_eq!(c, &[0, 1, 2, 5, 7, 8, 9, 10]);
}

#[test]
fn test_hash_set() {
    let a: HashSet<i32> = [1, 2, 5, 7, 0, 10].into_iter().collect();
    let b: HashSet<i32> = [2, 8, 9, 10, 5].into_iter().collect();

    let mut c: Vec<i32> = a.merge(b).unwrap().into_iter().collect();
    c.sort_unstable();
    assert_eq!(c, &[0, 1, 2, 5, 7, 8, 9, 10]);
}

#[test]
fn core_test_option() {
    assert_eq!(Some(42).merge(Some(32)).unwrap_err().kind, ErrorKind::Collision);
    assert_eq!(None.merge(Some(42)).unwrap(), Some(42));
    assert_eq!(Some(42).merge(None).unwrap(), Some(42));
    assert_eq!(Option::<i32>::None.merge(None).unwrap(), None);
}

#[test]
fn scalars_and_strings_collide() {
    assert!(true.merge(false).unwrap_err().kind.is_collision());
    assert!('a'.merge('b').unwrap_err().kind.is_collision());
    assert!(7u64.merge(7u64).unwrap_err().kind.is_collision());
    let e = String::from("a").merge(String::from("b")).unwrap_err();
    assert!(e.kind.is_collision());
    assert!(e.value.is_empty());
    assert!(e.modules.is_empty());
}

#[test]
fn unit_merges_to_itself() {
    assert_eq!(().merge(()).unwrap(), ());
    let mut u = ();
    assert!(u.merge_ref(()).is_ok());
}

#[test]
fn merge_ref_matches_merge() {
    let mut a = vec![1, 3, 4];
    a.merge_ref(vec![7, 2, 0]).unwrap();
    assert_eq!(a, vec![1, 3, 4].merge(vec![7, 2, 0]).unwrap());
    assert_eq!(module::merge(vec![1], vec![2]).unwrap(), vec![1, 2]);
}

#[test]
fn concatenation_is_associative_with_empty_identity() {
    let (a, b, c) = (vec![1, 2], vec![3], vec![4, 5]);
    let left = a.clone().merge(b.clone()).unwrap().merge(c.clone()).unwrap();
    let right = a.clone().merge(b.merge(c).unwrap()).unwrap();
    assert_eq!(left, right);
    assert_eq!(left, vec![1, 2, 3, 4, 5]);
    assert_eq!(a.clone().merge(Vec::new()).unwrap(), a);
    assert_eq!(Vec::new().merge(a.clone()).unwrap(), a);
}

#[test]
fn nested_option_merges_inner_values() {
    let a = Some(vec![1]);
    let b = Some(vec![2]);
    assert_eq!(a.merge(b).unwrap(), Some(vec![1, 2]));
}

#[test]
fn mapping_failure_names_the_key() {
    let mut a: KeyMap<i32> = KeyMap::new();
    a.insert("only_a".to_string(), 1);
    a.insert("shared".to_string(), 2);
    let mut b: KeyMap<i32> = KeyMap::new();
    b.insert("only_b".to_string(), 3);
    b.insert("shared".to_string(), 4);

    let err = a.merge(b).unwrap_err();
    assert!(err.kind.is_collision());
    let mut parts = err.value.components();
    assert_eq!(parts.next().as_deref(), Some("\"shared\""));
    assert_eq!(parts.next(), None);
}

#[test]
fn mapping_union_keeps_order_and_values() {
    let mut a: KeyMap<Vec<i32>> = KeyMap::new();
    a.insert("x".to_string(), vec![1]);
    a.insert("y".to_string(), vec![2]);
    let mut b: KeyMap<Vec<i32>> = KeyMap::new();
    b.insert("z".to_string(), vec![9]);
    b.insert("x".to_string(), vec![3]);

    let c = a.merge(b).unwrap();
    assert_eq!(c.len(), 3);
    assert_eq!(c.get("x"), Some(&vec![1, 3]));
    assert_eq!(c.get("y"), Some(&vec![2]));
    assert_eq!(c.get("z"), Some(&vec![9]));
    assert!(c.contains_key("z"));
    assert!(!c.contains_key("w"));
}

#[test]
fn mapping_insert_replaces() {
    let mut a: KeyMap<i32> = KeyMap::new();
    assert_eq!(a.insert("k".to_string(), 1), None);
    assert_eq!(a.insert("k".to_string(), 2), Some(1));
    assert_eq!(a.len(), 1);
    assert_eq!(a.get("k"), Some(&2));
}

#[test]
fn more_unmergeable_shapes_collide() {
    assert!("a".merge("b").unwrap_err().kind.is_collision());
    let a: Box<str> = "a".into();
    let b: Box<str> = "b".into();
    assert!(a.merge(b).unwrap_err().kind.is_collision());
    let a: Box<[i32]> = vec![1].into_boxed_slice();
    let b: Box<[i32]> = vec![2].into_boxed_slice();
    assert!(a.merge(b).unwrap_err().kind.is_collision());
    let a: Result<i32, i32> = Ok(1);
    assert!(a.merge(Err(2)).unwrap_err().kind.is_collision());
    assert!((0..3).merge(1..2).unwrap_err().kind.is_collision());
    assert!((0..=3).merge(1..=2).unwrap_err().kind.is_collision());
    assert_eq!(
        std::marker::PhantomData::<i32>.merge(std::marker::PhantomData).unwrap(),
        std::marker::PhantomData
    );
}

#[test]
fn collision_leaves_self_unchanged() {
    let mut a = 42i32;
    assert!(a.merge_ref(42).unwrap_err().kind.is_collision());
    assert_eq!(a, 42);
    let mut s = String::from("keep");
    assert!(s.merge_ref(String::from("other")).is_err());
    assert_eq!(s, "keep");
}
