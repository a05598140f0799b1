use nodframe::decimal::{read_signed, read_unsigned, write_decimal};
use nodframe::discrete::DiscreteColumn;
use nodframe::numeric::NumericColumn;
use nodframe::scalar::Scalar;
use nodframe::text::{join, write_column};
use std::collections::HashSet;

fn strings(items: &[&str]) -> Vec<String> {
    items.iter().map(|s| String::from(*s)).collect()
}

#[test]
fn decimal_is_written_as_std_writes_it() {
    for v in [0_i64, 7, 10, 12, 100, 909, -1, -10, -128, i64::MAX, i64::MIN] {
        assert_eq!(v.render(), v.to_string());
    }
    for v in [0_u64, 9, 10, 4096, u64::MAX] {
        assert_eq!(v.render(), v.to_string());
    }
    assert_eq!(i8::MIN.render(), "-128");
    assert_eq!(u8::MAX.render(), "255");
    assert_eq!(i16::MIN.render(), "-32768");
    assert_eq!(u16::MAX.render(), "65535");
    assert_eq!(i32::MIN.render(), "-2147483648");
    assert_eq!(u32::MAX.render(), "4294967295");
    assert_eq!(isize::MIN.render(), isize::MIN.to_string());
    assert_eq!(usize::MAX.render(), usize::MAX.to_string());
    assert_eq!(write_decimal(true, 42), "-42");
    assert_eq!(write_decimal(false, 0), "0");
}

#[test]
fn decimal_is_read_as_std_reads_it() {
    for s in [
        "0", "7", "+7", "-7", "-0", "+0", "007", "", "+", "-", " 7", "7 ", "1a", "a", "--1",
        "+-1", "1.0", "9223372036854775807", "9223372036854775808", "-9223372036854775808",
        "-9223372036854775809", "99999999999999999999999999", "0000000000000000000000000001",
    ] {
        assert_eq!(i64::parse(s), s.parse::<i64>().ok(), "i64 {:?}", s);
        assert_eq!(u64::parse(s), s.parse::<u64>().ok(), "u64 {:?}", s);
        assert_eq!(i8::parse(s), s.parse::<i8>().ok(), "i8 {:?}", s);
        assert_eq!(u8::parse(s), s.parse::<u8>().ok(), "u8 {:?}", s);
        assert_eq!(i32::parse(s), s.parse::<i32>().ok(), "i32 {:?}", s);
        assert_eq!(usize::parse(s), s.parse::<usize>().ok(), "usize {:?}", s);
    }
    for s in ["127", "128", "-128", "-129", "255", "256", "65535", "65536", "-32768", "-32769"] {
        assert_eq!(i8::parse(s), s.parse::<i8>().ok());
        assert_eq!(u8::parse(s), s.parse::<u8>().ok());
        assert_eq!(i16::parse(s), s.parse::<i16>().ok());
        assert_eq!(u16::parse(s), s.parse::<u16>().ok());
        assert_eq!(u32::parse(s), s.parse::<u32>().ok());
        assert_eq!(isize::parse(s), s.parse::<isize>().ok());
    }
    assert_eq!(read_signed("-12", -12, 5), Some(-12));
    assert_eq!(read_signed("-13", -12, 5), None);
    assert_eq!(read_signed("5", -12, 5), Some(5));
    assert_eq!(read_signed("6", -12, 5), None);
    assert_eq!(read_unsigned("+300", 300), Some(300));
    assert_eq!(read_unsigned("301", 300), None);
    assert_eq!(read_unsigned("-0", 300), None);
}

#[test]
fn written_scalars_read_back() {
    for v in [i64::MIN, -1, 0, 1, 1234567890, i64::MAX] {
        assert_eq!(i64::parse(&v.render()), Some(v));
    }
    for v in [i8::MIN, -1, 0, i8::MAX] {
        assert_eq!(i8::parse(&v.render()), Some(v));
    }
    for v in [0_u32, 1, u32::MAX] {
        assert_eq!(u32::parse(&v.render()), Some(v));
    }
}

#[test]
fn scalars_are_ordered_by_value() {
    assert!((-3_i32).less(&2));
    assert!(!2_i32.less(&2));
    assert!(!3_i32.less(&2));
    assert!(2_u8.same(&2));
    assert!(!2_u8.same(&3));
}

#[test]
fn join_puts_the_separator_between_parts() {
    assert_eq!(join(&Vec::new(), ", "), "");
    assert_eq!(join(&strings(&["a"]), ", "), "a");
    assert_eq!(join(&strings(&["a", "b", "c"]), ", "), "a, b, c");
    assert_eq!(join(&strings(&["", ""]), "-"), "-");
    assert_eq!(write_column(&String::from("k"), &strings(&["1", "2"])), "k: [1, 2]");
    assert_eq!(write_column(&String::from("k"), &Vec::new()), "k: []");
}

#[test]
fn numeric_column_is_written_with_its_name() {
    let col = NumericColumn { key: String::from("bing"), items: vec![1_i64, -2, 30] };
    assert_eq!(col.to_string(), "bing: [1, -2, 30]");
    assert_eq!(col.len(), 3);
    assert_eq!(*col.get(2), 30);
    let empty: NumericColumn<i64> = NumericColumn { key: String::from("e"), items: Vec::new() };
    assert_eq!(empty.to_string(), "e: []");
}

#[test]
fn masked_view_keeps_selected_rows_in_order() {
    let col = NumericColumn { key: String::from("bing"), items: vec![10_i64, 20, 30, 40, 50] };
    let mask = vec![false, true, true, false, true];
    let kept = col.binary_view(&mask);
    assert_eq!(kept.key, "bing");
    assert_eq!(kept.items.len(), mask.iter().filter(|b| **b).count());
    assert_eq!(kept.items, vec![20, 30, 50]);
    assert_eq!(col.binary_view(&vec![false; 5]).items, Vec::<i64>::new());
    assert_eq!(col.binary_view(&vec![true; 5]).items, col.items);
}

#[test]
fn values_do_not_depend_on_order() {
    let a = NumericColumn { key: String::from("a"), items: vec![1_i64, 2, 3, 3, 2, 1, 4] };
    let b = NumericColumn { key: String::from("b"), items: vec![4_i64, 3, 1, 2, 2, 3, 1] };
    assert_eq!(a.values(), b.values());
    let expected: HashSet<i64> = [1, 2, 3, 4].into_iter().collect();
    assert_eq!(a.values(), expected);
    assert_eq!(a.values().len(), 4);
}

#[test]
fn discrete_column_operations() {
    let col = DiscreteColumn { key: String::from("tag"), items: strings(&["a", "b", "a", "c", "b"]) };
    assert_eq!(col.len(), 5);
    assert_eq!(col.get(3), "c");
    assert_eq!(col.to_string(), "tag: [a, b, a, c, b]");
    assert_eq!(col.slice(1, 4).items, strings(&["b", "a", "c"]));
    assert_eq!(col.slice(2, 2).items, Vec::<String>::new());
    let kept = col.binary_view(&vec![true, false, false, true, true]);
    assert_eq!(kept.key, "tag");
    assert_eq!(kept.items, strings(&["a", "c", "b"]));
    let values = col.values();
    assert_eq!(values.len(), 3);
    let set: HashSet<String> = values.into_iter().collect();
    let expected: HashSet<String> = strings(&["a", "b", "c"]).into_iter().collect();
    assert_eq!(set, expected);
}

#[test]
fn slice_takes_a_half_open_range() {
    let col = NumericColumn { key: String::from("bing"), items: vec![1_i64, 2, 3] };
    assert_eq!(col.slice(0, 0).items, Vec::<i64>::new());
    assert_eq!(col.slice(0, 3).items, vec![1, 2, 3]);
    assert_eq!(col.slice(0, 1).items, vec![1]);
    assert_eq!(col.slice(1, 3).key, "bing");
}
