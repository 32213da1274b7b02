use partial_min_max::{partial_max_iter, partial_min_iter};
use std::cmp::Ordering;

#[derive(Debug, Clone, Copy, PartialEq)]
struct Ranked {
    rank: u8,
    name: &'static str,
}

impl PartialOrd for Ranked {
    fn partial_cmp(&self, other: &Ranked) -> Option<Ordering> {
        self.rank.partial_cmp(&other.rank)
    }
}

fn ranked(rank: u8, name: &'static str) -> Ranked {
    Ranked { rank, name }
}

#[test]
fn empty_sequence_has_no_maximum() {
    assert_eq!(partial_max_iter(Vec::<i32>::new().into_iter()), None);
    assert_eq!(partial_max_iter(std::iter::empty::<f64>()), None);
}

#[test]
fn empty_sequence_has_no_minimum() {
    assert_eq!(partial_min_iter(Vec::<i32>::new().into_iter()), None);
    assert_eq!(partial_min_iter(std::iter::empty::<f64>()), None);
}

#[test]
fn single_item_is_both_extremes() {
    assert_eq!(partial_max_iter(vec![42].into_iter()), Some(42));
    assert_eq!(partial_min_iter(vec![42].into_iter()), Some(42));
    assert!(partial_max_iter(vec![f64::NAN].into_iter()).unwrap().is_nan());
}

#[test]
fn maximum_of_integers() {
    assert_eq!(partial_max_iter(vec![4, 1, 5, 2, 3].into_iter()), Some(5));
    assert_eq!(partial_max_iter(vec![1, 2].into_iter()), Some(2));
    assert_eq!(partial_max_iter(vec![-3, -1, -2].into_iter()), Some(-1));
    assert_eq!(partial_max_iter([4u8, 1, 5, 2, 3, 6].iter()), Some(&6));
    assert_eq!(partial_max_iter(1..10), Some(9));
}

#[test]
fn minimum_of_integers() {
    assert_eq!(partial_min_iter(vec![4, 1, 5, 2, 3].into_iter()), Some(1));
    assert_eq!(partial_min_iter(vec![2, 1].into_iter()), Some(1));
    assert_eq!(partial_min_iter(vec![-3, -1, -2].into_iter()), Some(-3));
    assert_eq!(partial_min_iter([4u8, 1, 5, 2, 3, 6].iter()), Some(&1));
    assert_eq!(partial_min_iter(1..10), Some(1));
}

#[test]
fn extremes_of_floats() {
    assert_eq!(partial_max_iter(vec![4.0, 1.0, 5.33, 2.0, 3.0].into_iter()), Some(5.33));
    assert_eq!(partial_min_iter(vec![4.0, 1.0, 5.0, 2.0, 3.0, 6.0].into_iter()), Some(1.0));
}

#[test]
fn repeating_the_reduction_gives_the_same_result() {
    let items = vec![3, 9, 2, 9, 7];
    let first = partial_max_iter(items.clone().into_iter());
    let second = partial_max_iter(items.clone().into_iter());
    assert_eq!(first, Some(9));
    assert_eq!(first, second);
    let again = partial_max_iter(first.into_iter());
    assert_eq!(again, first);

    let first = partial_min_iter(items.clone().into_iter());
    let second = partial_min_iter(items.into_iter());
    assert_eq!(first, Some(2));
    assert_eq!(first, second);
    let again = partial_min_iter(first.into_iter());
    assert_eq!(again, first);
}

#[test]
fn earliest_of_equal_items_is_kept() {
    let items = vec![ranked(1, "low"), ranked(7, "first"), ranked(7, "second"), ranked(3, "mid")];
    assert_eq!(partial_max_iter(items.clone().into_iter()).unwrap().name, "first");
    let items = vec![ranked(4, "mid"), ranked(2, "first"), ranked(9, "high"), ranked(2, "second")];
    assert_eq!(partial_min_iter(items.into_iter()).unwrap().name, "first");
}

#[test]
fn incomparable_item_never_displaces_the_held_one() {
    let nan = f64::NAN;
    assert_eq!(partial_max_iter(vec![1.0, nan, 3.0, nan, 2.0].into_iter()), Some(3.0));
    assert_eq!(partial_min_iter(vec![2.0, nan, 1.0, nan, 3.0].into_iter()), Some(1.0));
}

#[test]
fn incomparable_first_item_is_never_displaced() {
    let nan = f64::NAN;
    assert!(partial_max_iter(vec![nan, 1.0, 3.0].into_iter()).unwrap().is_nan());
    assert!(partial_min_iter(vec![nan, 1.0, 3.0].into_iter()).unwrap().is_nan());
}

#[test]
fn iterator_is_consumed_lazily_and_once() {
    let mut pulled = 0;
    let squares = (1..=5).map(|n| {
        pulled += 1;
        n * n
    });
    assert_eq!(partial_max_iter(squares), Some(25));
    assert_eq!(pulled, 5);
}

#[test]
fn owned_items_are_returned_by_value() {
    let words = vec![String::from("pear"), String::from("apple"), String::from("quince")];
    assert_eq!(partial_max_iter(words.clone().into_iter()), Some(String::from("quince")));
    assert_eq!(partial_min_iter(words.into_iter()), Some(String::from("apple")));
}
