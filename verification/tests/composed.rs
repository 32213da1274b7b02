use partial_min_max::{max_many, min_many, partial_max, partial_min};

#[test]
fn it_works() {
    assert_eq!(max_many(vec![1, 2]), 2);
    assert_eq!(max_many(vec![1, 2, 3]), 3);
    assert_eq!(max_many(vec![4, 1, 2, 3]), 4);
    assert_eq!(max_many(vec![4, 1, 5, 2, 3]), 5);
    assert_eq!(max_many(vec![4, 1, 5, 2, 3, 6]), 6);

    assert_eq!(min_many(vec![1, 2]), 1);
    assert_eq!(min_many(vec![1, 2, 3]), 1);
    assert_eq!(min_many(vec![4, 1, 2, 3]), 1);
    assert_eq!(min_many(vec![4, 1, 5, 2, 3]), 1);
    assert_eq!(min_many(vec![4, 1, 5, 2, 3, 6]), 1);
}

#[test]
fn even_with_floats() {
    assert_eq!(max_many(vec![1.0, 2.5]), 2.5);
    assert_eq!(max_many(vec![1.0, 2.0, 3.0]), 3.0);
    assert_eq!(max_many(vec![4.0, 1.0, 2.0, 3.0]), 4.0);
    assert_eq!(max_many(vec![4.0, 1.0, 5.33, 2.0, 3.0]), 5.33);
    assert_eq!(max_many(vec![4.0, 1.0, 5.0, 2.0, 3.0, 6.0]), 6.0);

    assert_eq!(min_many(vec![1.0, 2.0]), 1.0);
    assert_eq!(min_many(vec![1.0, 2.0, 3.0]), 1.0);
    assert_eq!(min_many(vec![4.0, 1.0, 2.0, 3.0]), 1.0);
    assert_eq!(min_many(vec![4.0, 1.0, 5.0, 2.0, 3.0]), 1.0);
    assert_eq!(min_many(vec![4.0, 1.0, 5.0, 2.0, 3.0, 6.0]), 1.0);
}

#[test]
fn two_values_are_selected_between() {
    assert_eq!(max_many(vec![1, 2]), partial_max(1, 2));
    assert_eq!(max_many(vec![2, 1]), 2);
    assert_eq!(min_many(vec![1, 2]), partial_min(1, 2));
    assert_eq!(min_many(vec![2, 1]), 1);
}

#[test]
fn four_values_are_paired_off() {
    let nan = f64::NAN;
    // select(select(2, NaN), select(1, 3)) = select(2, 3) = 3, where nesting
    // to the right would stop at select(2, NaN) = 2.
    assert_eq!(max_many(vec![2.0, nan, 1.0, 3.0]), 3.0);
    assert_eq!(
        max_many(vec![2.0, nan, 1.0, 3.0]),
        partial_max(partial_max(2.0, nan), partial_max(1.0, 3.0))
    );
    // select(select(1, 2), select(NaN, 3)) = select(2, NaN) = 2, where a fold
    // from the left would go on to select(2, 3) = 3.
    assert_eq!(max_many(vec![1.0, 2.0, nan, 3.0]), 2.0);
    assert_eq!(
        max_many(vec![1.0, 2.0, nan, 3.0]),
        partial_max(partial_max(1.0, 2.0), partial_max(nan, 3.0))
    );
    assert_eq!(min_many(vec![2.0, nan, 3.0, 1.0]), 1.0);
    assert_eq!(
        min_many(vec![3.0, 2.0, nan, 1.0]),
        partial_min(partial_min(3.0, 2.0), partial_min(nan, 1.0))
    );
    assert_eq!(min_many(vec![3.0, 2.0, nan, 1.0]), 2.0);
    for (w, x, y, z) in [(4, 1, 2, 3), (1, 2, 3, 4), (3, 3, 3, 3), (0, 9, 9, 0)] {
        assert_eq!(
            max_many(vec![w, x, y, z]),
            partial_max(partial_max(w, x), partial_max(y, z))
        );
        assert_eq!(
            min_many(vec![w, x, y, z]),
            partial_min(partial_min(w, x), partial_min(y, z))
        );
    }
}

#[test]
fn three_values_nest_to_the_right() {
    let nan = f64::NAN;
    // select(1, select(NaN, 3)) = select(1, NaN) = 1
    assert_eq!(max_many(vec![1.0, nan, 3.0]), 1.0);
    assert_eq!(max_many(vec![1.0, nan, 3.0]), partial_max(1.0, partial_max(nan, 3.0)));
    assert_eq!(min_many(vec![3.0, nan, 1.0]), 3.0);
}

#[test]
fn five_and_more_values_end_in_two_pairs() {
    let nan = f64::NAN;
    // select(0, select(select(1, 2), select(NaN, 3))) = select(0, 2) = 2
    assert_eq!(max_many(vec![0.0, 1.0, 2.0, nan, 3.0]), 2.0);
    // select(9, select(0, select(select(1, 2), select(NaN, 3)))) = select(9, 2) = 9
    assert_eq!(max_many(vec![9.0, 0.0, 1.0, 2.0, nan, 3.0]), 9.0);
    // select(5, select(4, select(select(3, 2), select(NaN, 1)))) = select(5, select(4, 2)) = 2
    assert_eq!(min_many(vec![5.0, 4.0, 3.0, 2.0, nan, 1.0]), 2.0);
    assert_eq!(max_many(vec![1, 2, 3, 4, 5, 6, 7, 8, 9]), 9);
    assert_eq!(max_many(vec![9, 8, 7, 6, 5, 4, 3, 2, 1]), 9);
    assert_eq!(min_many(vec![5, 6, 7, 1, 8, 9, 2]), 1);
}

#[test]
fn first_of_equal_values_is_returned() {
    let a = (1, 'a');
    let items: Vec<(i32, char)> = vec![a, (1, 'b'), (1, 'c'), (1, 'd'), (1, 'e')];
    // Tuples are ordered by both fields, so make the tie on the whole value.
    assert_eq!(max_many(vec![a, a, a]), a);
    assert_eq!(max_many(items.clone()), (1, 'e'));
    assert_eq!(min_many(items), (1, 'a'));
}

#[test]
fn owned_values_are_returned_by_value() {
    let words = vec![String::from("pear"), String::from("apple"), String::from("quince")];
    assert_eq!(max_many(words.clone()), "quince");
    assert_eq!(min_many(words), "apple");
}
