use module::merge::{merge_field, merge_field_with, Merge};
use module::Error;

#[derive(Debug, Default, Clone, Copy, PartialEq, Eq)]
struct Merged(bool);

impl Merge for Merged {
    fn merge_ref(&mut self, _other: Self) -> Result<(), Error> {
        self.0 = true;
        Ok(())
    }
}

#[derive(Default)]
struct Unit;

impl Merge for Unit {
    fn merge_ref(&mut self, _other: Self) -> Result<(), Error> {
        Ok(())
    }
}

#[test]
fn tests_test_derive_merge_unit() {
    let a = Unit;
    let b = Unit;

    let _: Unit = a.merge(b).unwrap();
}

#[derive(Default)]
struct Pair(Merged, Merged);

impl Merge for Pair {
    fn merge_ref(&mut self, other: Self) -> Result<(), Error> {
        merge_field(&mut self.0, other.0, "0".to_string())?;
        merge_field(&mut self.1, other.1, "1".to_string())
    }
}

#[test]
fn tests_test_derive_merge_tuple() {
    let a = Pair::default();
    let b = Pair::default();

    let c = a.merge(b).unwrap();

    assert!(c.0 .0);
    assert!(c.1 .0);
}

#[derive(Default)]
struct Named {
    a: Merged,
    b: Merged,
    c: Merged,
}

impl Merge for Named {
    fn merge_ref(&mut self, other: Self) -> Result<(), Error> {
        merge_field(&mut self.a, other.a, "a".to_string())?;
        merge_field(&mut self.b, other.b, "b".to_string())?;
        merge_field(&mut self.c, other.c, "c".to_string())
    }
}

#[test]
fn tests_test_derive_merge_named() {
    let a = Named::default();
    let b = Named::default();

    let c = a.merge(b).unwrap();

    assert!(c.a.0);
    assert!(c.b.0);
    assert!(c.c.0);
}

#[derive(Debug, Default)]
struct Renamed(i32);

impl Merge for Renamed {
    fn merge_ref(&mut self, other: Self) -> Result<(), Error> {
        merge_field(&mut self.0, other.0, "foo".to_string())
    }
}

#[test]
fn test_derive_merge_rename() {
    let a = Renamed::default();
    let b = Renamed::default();

    let err = a.merge(b).unwrap_err();

    let mut iter = err.value.components();
    assert_eq!(iter.next().as_deref(), Some("foo"));
}

#[derive(Default)]
struct Skipping {
    a: Merged,
    b: Merged,
    c: Merged,
}

impl Merge for Skipping {
    fn merge_ref(&mut self, other: Self) -> Result<(), Error> {
        merge_field(&mut self.b, other.b, "b".to_string())?;
        merge_field(&mut self.c, other.c, "c".to_string())
    }
}

#[test]
fn test_derive_merge_skip() {
    let a = Skipping::default();
    let b = Skipping::default();

    let merged = a.merge(b).unwrap();

    assert!(!merged.a.0);
    assert!(merged.b.0);
    assert!(merged.c.0);
}

fn add_up(a: &mut i32, b: i32) -> Result<(), Error> {
    *a += b;
    Ok(())
}

struct Summed {
    a: i32,
    b: i32,
}

impl Merge for Summed {
    fn merge_ref(&mut self, other: Self) -> Result<(), Error> {
        add_up(&mut self.a, other.a)?;
        add_up(&mut self.b, other.b)
    }
}

#[test]
fn test_derive_merge_with() {
    let a = Summed { a: 5, b: 12 };
    let b = Summed { a: -2, b: 42 };

    let merged = a.merge(b).unwrap();

    assert_eq!(merged.a, 3);
    assert_eq!(merged.b, 54);
}

#[derive(Debug, Default)]
struct Outer {
    inner: Option<Renamed>,
}

impl Merge for Outer {
    fn merge_ref(&mut self, other: Self) -> Result<(), Error> {
        merge_field(&mut self.inner, other.inner, "inner".to_string())
    }
}

#[test]
fn nested_fields_trace_from_the_root() {
    let a = Outer { inner: Some(Renamed(1)) };
    let b = Outer { inner: Some(Renamed(2)) };
    let err = a.merge(b).unwrap_err();
    let mut iter = err.value.components();
    assert_eq!(iter.next().as_deref(), Some("inner"));
    assert_eq!(iter.next().as_deref(), Some("foo"));
    assert_eq!(iter.next(), None);
}

#[test]
fn field_with_a_combinator() {
    let sum = merge_field_with(5, -2, "a".to_string(), |x: i32, y: i32| Ok(x + y));
    assert_eq!(sum.unwrap(), 3);
    let err = merge_field_with(1, 2, "b".to_string(), |_: i32, _: i32| Err(Error::collision())).unwrap_err();
    assert!(err.kind.is_collision());
    assert_eq!(err.value.components().next().as_deref(), Some("b"));
}
