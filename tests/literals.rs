use std::collections::HashMap;
use vecmac::{ahashmap, avec, avec_repeat, avec_repeat_with, MaxValue};

#[test]
fn single() {
    let x: Vec<u32> = avec([42]);
    assert!(!x.is_empty());
    assert_eq!(x.len(), 1);
    assert_eq!(x[0], 42);
}

#[test]
fn double() {
    let x: Vec<u32> = avec([42, 43]);
    assert!(!x.is_empty());
    assert_eq!(x.len(), 2);
    assert_eq!(x[0], 42);
}

#[test]
fn trailing() {
    let _: Vec<&'static str> = avec([
        "kjasdjakisdfhkjasfhdgkjafghkjahfgjkashfkjghadkjfghakjdfg",
        "kjasdjakisdfhkjasfhdgkjafghkjahfgjkashfkjghadkjfghakjdfg",
        "kjasdjakisdfhkjasfhdgkjafghkjahfgjkashfkjghadkjfghakjdfg",
        "kjasdjakisdfhkjasfhdgkjafghkjahfgjkashfkjghadkjfghakjdfg",
        "kjasdjakisdfhkjasfhdgkjafghkjahfgjkashfkjghadkjfghakjdfg",
        "kjasdjakisdfhkjasfhdgkjafghkjahfgjkashfkjghadkjfghakjdfg",
    ]);
}

#[test]
fn clone_2() {
    let x: Vec<u32> = avec_repeat(3, 3);
    assert_eq!(x[0], 3);
    assert_eq!(x[1], 3);
    assert_eq!(x[2], 3);
}

#[test]
fn clone_2_non_literal() {
    let mut y = Some(42);
    let x: Vec<u32> = avec_repeat(y.take().unwrap(), 3);
    assert_eq!(x[0], 42);
    assert_eq!(x[1], 42);
    assert_eq!(x[2], 42);
}

#[test]
fn single_hashmap() {
    let x: HashMap<&str, u32> = ahashmap([("one", 1)]);
    assert!(!x.is_empty());
    assert_eq!(x.len(), 1);
    assert_eq!(x.get("one"), Some(&1));
}

#[test]
fn double_hashmap() {
    let x: HashMap<&str, u32> = ahashmap([("one", 1), ("two", 2)]);
    assert!(!x.is_empty());
    assert_eq!(x.len(), 2);
    assert_eq!(x.get("two"), Some(&2));
}

#[test]
fn list_keeps_order_and_exact_capacity() {
    let x: Vec<u64> = avec([5, 1, 4, 1, 3]);
    assert_eq!(x, vec![5, 1, 4, 1, 3]);
    assert_eq!(x.capacity(), 5);
}

#[test]
fn list_empty() {
    let x: Vec<u32> = avec([]);
    assert!(x.is_empty());
}

#[test]
fn list_takes_each_value_once() {
    let mut y = Some(42);
    let mut calls: u32 = 0;
    let mut next = || {
        calls += 1;
        calls
    };
    let x: Vec<u32> = avec([y.take().unwrap(), next(), next()]);
    assert_eq!(x, vec![42, 1, 2]);
    assert_eq!(y, None);
    assert_eq!(calls, 2);
}

#[test]
fn repeat_zero_times() {
    let x: Vec<u32> = avec_repeat(7, 0);
    assert!(x.is_empty());
}

#[test]
fn repeat_literal_many_times() {
    let x: Vec<&str> = avec_repeat("a", 5);
    assert_eq!(x, vec!["a"; 5]);
}

#[test]
fn repeat_with_calls_once_per_slot() {
    let mut counter: u32 = 0;
    let x: Vec<u32> = avec_repeat_with(4, || {
        counter += 1;
        counter * 10
    });
    assert_eq!(x, vec![10, 20, 30, 40]);
    assert_eq!(counter, 4);
}

#[test]
fn repeat_with_non_copy_values() {
    let mut n: usize = 0;
    let x: Vec<String> = avec_repeat_with(3, || {
        n += 1;
        "x".repeat(n)
    });
    assert_eq!(x, vec!["x".to_string(), "xx".to_string(), "xxx".to_string()]);
}

#[test]
fn repeat_with_zero_never_calls() {
    let mut called = false;
    let x: Vec<u32> = avec_repeat_with(0, || {
        called = true;
        1
    });
    assert!(x.is_empty());
    assert!(!called);
}

#[test]
fn hashmap_later_key_overwrites() {
    let x: HashMap<u32, u32> = ahashmap([(1, 10), (2, 20), (1, 30)]);
    assert_eq!(x.len(), 2);
    assert_eq!(x.get(&1), Some(&30));
    assert_eq!(x.get(&2), Some(&20));
}

#[test]
fn hashmap_distinct_keys_each_found() {
    let x: HashMap<u64, char> = ahashmap([(3, 'c'), (1, 'a'), (2, 'b')]);
    assert_eq!(x.len(), 3);
    assert_eq!(x.get(&1), Some(&'a'));
    assert_eq!(x.get(&2), Some(&'b'));
    assert_eq!(x.get(&3), Some(&'c'));
}

#[test]
fn max_values_of_integer_types() {
    assert_eq!(<i32 as MaxValue>::max_value(), i32::MAX);
    assert_eq!(<u32 as MaxValue>::max_value(), u32::MAX);
    assert_eq!(<i64 as MaxValue>::max_value(), i64::MAX);
    assert_eq!(<u64 as MaxValue>::max_value(), u64::MAX);
}
