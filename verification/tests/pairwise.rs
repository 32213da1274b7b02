use partial_min_max::{partial_max, partial_min};
use std::cmp::Ordering;

/// Ordered by `key` alone; `tag` tells apart values that compare as equal.
#[derive(Debug, Clone, Copy, PartialEq)]
struct Keyed {
    key: i32,
    tag: char,
}

impl PartialOrd for Keyed {
    fn partial_cmp(&self, other: &Keyed) -> Option<Ordering> {
        self.key.partial_cmp(&other.key)
    }
}

/// A set of small numbers, ordered by inclusion: two sets of which
/// neither holds the other are incomparable.
#[derive(Debug, Clone, Copy, PartialEq)]
struct Bits(u8);

impl PartialOrd for Bits {
    fn partial_cmp(&self, other: &Bits) -> Option<Ordering> {
        if self.0 == other.0 {
            Some(Ordering::Equal)
        } else if self.0 & other.0 == self.0 {
            Some(Ordering::Less)
        } else if self.0 & other.0 == other.0 {
            Some(Ordering::Greater)
        } else {
            None
        }
    }
}

fn keyed(key: i32, tag: char) -> Keyed {
    Keyed { key, tag }
}

#[test]
fn greater_wins_in_either_position() {
    assert_eq!(partial_max(7, 3), 7);
    assert_eq!(partial_max(3, 7), 7);
    assert_eq!(partial_max(-1i64, -5i64), -1);
    assert_eq!(partial_max("pear", "apple"), "pear");
    assert_eq!(partial_max("apple", "pear"), "pear");
}

#[test]
fn less_wins_in_either_position() {
    assert_eq!(partial_min(7, 3), 3);
    assert_eq!(partial_min(3, 7), 3);
    assert_eq!(partial_min(-1i64, -5i64), -5);
    assert_eq!(partial_min(2.5, 1.0), 1.0);
    assert_eq!(partial_min(1.0, 2.5), 1.0);
}

#[test]
fn same_value_is_returned() {
    assert_eq!(partial_max(5, 5), 5);
    assert_eq!(partial_min(5, 5), 5);
    assert_eq!(partial_max(0.0, 0.0), 0.0);
    assert_eq!(partial_min(String::from("x"), String::from("x")), "x");
}

#[test]
fn tie_goes_to_first_argument() {
    let first = keyed(1, 'a');
    let second = keyed(1, 'b');
    assert_eq!(partial_max(first, second).tag, 'a');
    assert_eq!(partial_max(second, first).tag, 'b');
    assert_eq!(partial_min(first, second).tag, 'a');
    assert_eq!(partial_min(second, first).tag, 'b');
}

#[test]
fn strict_win_beats_first_argument() {
    assert_eq!(partial_max(keyed(1, 'a'), keyed(2, 'b')).tag, 'b');
    assert_eq!(partial_min(keyed(2, 'a'), keyed(1, 'b')).tag, 'b');
}

#[test]
fn incomparable_goes_to_first_argument() {
    let nan = f64::NAN;
    assert_eq!(partial_max(1.0, nan), 1.0);
    assert!(partial_max(nan, 1.0).is_nan());
    assert_eq!(partial_min(1.0, nan), 1.0);
    assert!(partial_min(nan, 1.0).is_nan());
}

#[test]
fn incomparable_sets_keep_first() {
    assert_eq!(partial_max(Bits(0b011), Bits(0b110)), Bits(0b011));
    assert_eq!(partial_min(Bits(0b011), Bits(0b110)), Bits(0b011));
    assert_eq!(partial_max(Bits(0b010), Bits(0b110)), Bits(0b110));
    assert_eq!(partial_min(Bits(0b110), Bits(0b010)), Bits(0b010));
}

#[test]
fn values_are_moved_not_copied() {
    let left = vec![1, 2, 3];
    let right = vec![1, 2, 4];
    let chosen = partial_max(left, right);
    assert_eq!(chosen, vec![1, 2, 4]);
    let chosen = partial_min(chosen, vec![0]);
    assert_eq!(chosen, vec![0]);
}
