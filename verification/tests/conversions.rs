use non_empty_vec::{EmptyError, NonEmpty};
use std::convert::TryFrom;

#[test]
fn serialize() {
    let vec: NonEmpty<u32> = (1, vec![]).into();
    let text = serde_json::to_string(vec.as_slice()).unwrap();
    assert_eq!(text, "[1]");
    let list: Vec<u32> = serde_json::from_str(&text).unwrap();
    assert_eq!(NonEmpty::try_from(list).unwrap(), vec);
}

#[test]
fn deserialize_empty_list_is_refused() {
    let list: Vec<u32> = serde_json::from_str("[]").unwrap();
    assert_eq!(NonEmpty::try_from(list), Err(EmptyError));
}

#[test]
fn round_trip_through_vec() {
    let v = NonEmpty::new_unchecked(vec![4, 5, 6]);
    let list: Vec<i32> = v.clone().into();
    assert_eq!(list, vec![4, 5, 6]);
    assert_eq!(NonEmpty::try_from(list).unwrap(), v);
}

#[test]
fn from_pairs() {
    let back: NonEmpty<i32> = (vec![], 1).into();
    assert_eq!(back.as_slice(), &[1]);
    let back: NonEmpty<i32> = (vec![1, 2], 3).into();
    assert_eq!(back.as_slice(), &[1, 2, 3]);
    let front: NonEmpty<i32> = (1, vec![]).into();
    assert_eq!(front.as_slice(), &[1]);
    let front: NonEmpty<i32> = (1, vec![2, 3]).into();
    assert_eq!(front.as_slice(), &[1, 2, 3]);
}

#[test]
fn views_as_slice_and_vec() {
    let mut v = NonEmpty::new_unchecked(vec![1, 2, 3]);
    let slice: &[i32] = v.as_ref();
    assert_eq!(slice, &[1, 2, 3]);
    let vec: &Vec<i32> = v.as_ref();
    assert_eq!(vec, &vec![1, 2, 3]);
    let slice: &mut [i32] = v.as_mut();
    slice[1] = 20;
    assert_eq!(&*v, &[1, 20, 3]);
    assert_eq!(&v[1..], &[20, 3]);
    assert_eq!(v[2], 3);
}

#[test]
fn clone_is_equal() {
    let v = NonEmpty::new_unchecked(vec![String::from("a"), String::from("b")]);
    let w = v.clone();
    assert_eq!(v, w);
    assert_eq!(w.len(), 2);
}
