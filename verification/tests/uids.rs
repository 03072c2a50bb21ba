//! Lists of message numbers.

use yandex_mail::uids::{sort_numbers, uid_set};

#[test]
fn uid_ranges_are_compact() {
    assert_eq!(uid_set(&mut vec![9, 2, 3, 4, 9, 11]), "2:4,9,11");
}

#[test]
fn uid_set_leaves_sorted_numbers_without_repeats() {
    let mut uids = vec![9, 2, 3, 4, 9, 11];
    uid_set(&mut uids);
    assert_eq!(uids, [2, 3, 4, 9, 11]);
}

#[test]
fn one_number_and_no_number() {
    assert_eq!(uid_set(&mut vec![7]), "7");
    assert_eq!(uid_set(&mut vec![]), "");
    assert_eq!(uid_set(&mut vec![5, 5, 5]), "5");
}

#[test]
fn the_greatest_number_ends_a_run() {
    assert_eq!(
        uid_set(&mut vec![u32::MAX, u32::MAX - 1, 0]),
        "0,4294967294:4294967295"
    );
}

#[test]
fn the_order_of_the_numbers_makes_no_difference() {
    let forward = uid_set(&mut vec![1, 2, 3, 10, 12, 13]);
    let backward = uid_set(&mut vec![13, 12, 10, 3, 2, 1]);
    assert_eq!(forward, "1:3,10,12:13");
    assert_eq!(forward, backward);
}

#[test]
fn different_selections_have_different_texts() {
    assert_ne!(uid_set(&mut vec![1, 2, 3]), uid_set(&mut vec![1, 3]));
    assert_ne!(uid_set(&mut vec![12]), uid_set(&mut vec![1, 2]));
    assert_ne!(uid_set(&mut vec![1, 2]), uid_set(&mut vec![1, 2, 4]));
}

#[test]
fn numbers_are_sorted_once_each() {
    assert_eq!(sort_numbers(vec![3, 1, 3, 2]), [1, 2, 3]);
    assert!(sort_numbers(Vec::new()).is_empty());
}
