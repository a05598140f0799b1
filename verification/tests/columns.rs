use nodframe::comp::{compare, Comp};
use nodframe::discrete::DiscreteColumn;
use nodframe::numeric::NumericColumn;
use std::collections::HashSet;

#[test]
fn binary_view_test() {
    let col = NumericColumn {
        key: String::from("bing"),
        items: vec![1, 2, 3],
    };
    let b = col.binary_view(&vec![true, false, true]);
    assert_eq!(vec![1, 3], b.items)
}

#[test]
fn slice_test() {
    let col = NumericColumn {
        key: String::from("bing"),
        items: vec![1, 2, 3],
    };
    let b = col.slice(1, 3);
    assert_eq!(vec![2, 3], b.items)
}

#[test]
fn values_test() {
    let col = NumericColumn {
        key: String::from("bing"),
        items: vec![1_i64, 2, 3, 3, 2, 1, 4],
    };
    let b = col.values();
    let mut c = HashSet::new();
    c.extend(vec![1, 2, 3, 4].iter());
    assert_eq!(b, c);
}

#[test]
fn filter_test() {
    let col = NumericColumn {
        key: String::from("bing"),
        items: vec![1_i64, 2, 3, 3, 2, 1, 4],
    };
    let b = col.filter_array(&2, Comp::Leq);
    let c = vec![true, true, false, false, true, true, false];
    assert_eq!(c, b);
}

#[test]
fn compare_covers_every_operator() {
    assert!(compare(2_i64, &Comp::Eq, 2));
    assert!(!compare(2_i64, &Comp::Eq, 3));
    assert!(compare(2_i64, &Comp::Not, 3));
    assert!(!compare(2_i64, &Comp::Not, 2));
    assert!(compare(2_i64, &Comp::Les, 3));
    assert!(!compare(3_i64, &Comp::Les, 3));
    assert!(compare(3_i64, &Comp::Leq, 3));
    assert!(!compare(4_i64, &Comp::Leq, 3));
    assert!(compare(4_i64, &Comp::Gra, 3));
    assert!(!compare(3_i64, &Comp::Gra, 3));
    assert!(compare(3_i64, &Comp::Geq, 3));
    assert!(!compare(2_i64, &Comp::Geq, 3));
}

#[test]
fn discrete_filter_is_equality() {
    let col = DiscreteColumn {
        key: String::from("tag"),
        items: vec![String::from("a"), String::from("b"), String::from("a")],
    };
    assert_eq!(col.filter_array(&String::from("a")), vec![true, false, true]);
    assert_eq!(col.filter_array(&String::from("z")), vec![false, false, false]);
}
