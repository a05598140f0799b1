use nodframe::column::{build_column_discrete, build_column_numeric, Column};
use nodframe::comp::Comp;
use nodframe::frame::{can_build, frame_from_vecs, try_frame_from_vecs, NodFrame};
use nodframe::table::{frame_from_csv, frame_from_table, FrameError};

fn strings(items: &[&str]) -> Vec<String> {
    items.iter().map(|s| String::from(*s)).collect()
}

fn sample() -> NodFrame<i32> {
    frame_from_vecs(
        vec![String::from("value"), String::from("whoop")],
        vec![vec![1, 2, 3, 4], vec![14, 54, 7, 2]],
        vec![String::from("kabang")],
        vec![strings(&["1a", "2a", "3a", "4a"])],
    )
}

fn numeric_items(col: &Column<i32>) -> Vec<i32> {
    match col {
        Column::Numeric(n) => n.items.clone(),
        Column::Discrete(_) => panic!("expected a numeric column"),
    }
}

fn discrete_items(col: &Column<i32>) -> Vec<String> {
    match col {
        Column::Discrete(d) => d.items.clone(),
        Column::Numeric(_) => panic!("expected a discrete column"),
    }
}

#[test]
fn csv_test() {
    let frame = frame_from_vecs(
        vec![String::from("value"), String::from("whoop")],
        vec![vec![1, 2, 3, 4], vec![14, 54, 7, 2]],
        vec![String::from("kabang")],
        vec![vec![
            String::from("1a"),
            String::from("2a"),
            String::from("3a"),
            String::from("4a"),
        ]],
    );
    let text = frame.to_csv().unwrap();
    let frame2 = frame_from_csv::<i32>(&text).unwrap();
    assert_eq!(frame.to_string(), frame2.to_string());
}

#[test]
fn to_csv_writes_header_then_rows() {
    let text = sample().to_csv().unwrap();
    assert_eq!(
        String::from_utf8(text).unwrap(),
        "value,whoop,kabang\n1,14,1a\n2,54,2a\n3,7,3a\n4,2,4a\n"
    );
}

#[test]
fn to_table_gives_names_and_records() {
    let (header, rows) = sample().to_table();
    assert_eq!(header, strings(&["value", "whoop", "kabang"]));
    assert_eq!(rows.len(), 4);
    assert_eq!(rows[0], strings(&["1", "14", "1a"]));
    assert_eq!(rows[3], strings(&["4", "2", "4a"]));
}

#[test]
fn frame_to_string_is_exact() {
    assert_eq!(
        sample().to_string(),
        "frame:\nvalue: [1, 2, 3, 4]\nwhoop: [14, 54, 7, 2]\nkabang: [1a, 2a, 3a, 4a]\nNum Rows: 4"
    );
}

#[test]
fn frame_counts_rows_and_columns() {
    let f = sample();
    assert_eq!(f.num_rows(), 4);
    assert_eq!(f.num_cols(), 3);
    assert_eq!(f.column(2).get_key(), "kabang");
    assert_eq!(f.column(0).len(), 4);
}

#[test]
fn position_finds_each_name() {
    let f = sample();
    assert_eq!(f.position(&String::from("value")), Some(0));
    assert_eq!(f.position(&String::from("whoop")), Some(1));
    assert_eq!(f.position(&String::from("kabang")), Some(2));
    assert_eq!(f.position(&String::from("nope")), None);
}

#[test]
fn numeric_cols_index_and_rows() {
    let f = sample();
    let names: Vec<String> = f.numeric_cols().into_iter().cloned().collect();
    assert_eq!(names, strings(&["value", "whoop"]));
    assert_eq!(f.numeric_index(), vec![0, 1]);
    assert_eq!(
        f.numeric_rows(),
        vec![vec![1, 14], vec![2, 54], vec![3, 7], vec![4, 2]]
    );
}

#[test]
fn filter_applies_one_mask_to_every_column() {
    let f = sample();
    let g = f.filter_frame(String::from("whoop"), Comp::Gra, Some(5), None);
    assert_eq!(g.num_rows(), 3);
    assert_eq!(g.num_cols(), 3);
    assert_eq!(numeric_items(g.column(0)), vec![1, 2, 3]);
    assert_eq!(numeric_items(g.column(1)), vec![14, 54, 7]);
    assert_eq!(discrete_items(g.column(2)), strings(&["1a", "2a", "3a"]));
    let mask = f.column(1).filter_array(Comp::Gra, Some(5), None);
    assert_eq!(mask, vec![true, true, true, false]);
    for c in 0..3 {
        assert_eq!(
            f.column(c).binary_view(&mask).to_string(),
            g.column(c).to_string()
        );
        assert_eq!(g.column(c).len(), g.num_rows());
    }
    assert_eq!(f.num_rows(), 4);
}

#[test]
fn filter_on_discrete_column_tests_equality_whatever_the_operator() {
    let f = sample();
    let g = f.filter_frame(String::from("kabang"), Comp::Les, None, Some(String::from("3a")));
    assert_eq!(g.num_rows(), 1);
    assert_eq!(numeric_items(g.column(0)), vec![3]);
    assert_eq!(numeric_items(g.column(1)), vec![7]);
    assert_eq!(discrete_items(g.column(2)), strings(&["3a"]));
}

#[test]
fn filter_for_absent_value_gives_empty_frame_with_same_columns() {
    let f = sample();
    let g = f.filter_frame(String::from("value"), Comp::Eq, Some(99), None);
    assert_eq!(g.num_rows(), 0);
    assert_eq!(g.num_cols(), 3);
    assert_eq!(g.column(0).get_key(), "value");
    assert_eq!(g.column(1).get_key(), "whoop");
    assert_eq!(g.column(2).get_key(), "kabang");
    for c in 0..3 {
        assert_eq!(g.column(c).len(), 0);
    }
    assert_eq!(
        g.to_string(),
        "frame:\nvalue: []\nwhoop: []\nkabang: []\nNum Rows: 0"
    );
}

#[test]
fn filter_on_missing_column_is_refused() {
    let f = sample();
    assert!(f
        .try_filter_frame(String::from("nope"), Comp::Eq, Some(1), None)
        .is_none());
    assert!(f
        .try_filter_frame(String::from("value"), Comp::Eq, Some(1), None)
        .is_some());
}

#[test]
fn filter_with_the_wrong_operand_is_refused() {
    let f = sample();
    assert!(f
        .try_filter_frame(String::from("value"), Comp::Eq, None, Some(String::from("1")))
        .is_none());
    assert!(f
        .try_filter_frame(String::from("kabang"), Comp::Eq, Some(1), None)
        .is_none());
    let g = f
        .try_filter_frame(String::from("kabang"), Comp::Eq, None, Some(String::from("2a")))
        .unwrap();
    assert_eq!(g.num_rows(), 1);
}

#[test]
fn builders_make_columns_of_each_kind() {
    let n: Column<i64> = build_column_numeric("n", vec![5, 6]);
    let d: Column<i64> = build_column_discrete("d", strings(&["x", "y"]));
    assert_eq!(n.to_string(), "n: [5, 6]");
    assert_eq!(d.to_string(), "d: [x, y]");
    assert_eq!(n.get_num(1), Some(&6));
    assert_eq!(d.get_num(1), None);
    assert_eq!(n.cell_text(0), "5");
    assert_eq!(d.cell_text(0), "x");
    assert!(n.accepts(&Some(1), &None));
    assert!(!n.accepts(&None, &Some(String::from("x"))));
    assert!(d.accepts(&None, &Some(String::from("x"))));
    assert!(!d.accepts(&Some(1), &None));
}

#[test]
fn can_build_tells_what_makes_a_frame() {
    let keys = strings(&["a", "b"]);
    let data: Vec<Vec<i64>> = vec![vec![1, 2], vec![3, 4]];
    let skeys = strings(&["c"]);
    let sdata = vec![strings(&["x", "y"])];
    assert!(can_build(&keys, &data, &skeys, &sdata));
    let none: Vec<Vec<i64>> = Vec::new();
    assert!(!can_build(&Vec::new(), &none, &skeys, &sdata));
    let ragged: Vec<Vec<i64>> = vec![vec![1, 2], vec![3]];
    assert!(!can_build(&keys, &ragged, &skeys, &sdata));
    assert!(!can_build(&keys, &data, &skeys, &vec![strings(&["x"])]));
    assert!(!can_build(&strings(&["a", "a"]), &data, &skeys, &sdata));
    assert!(!can_build(&keys, &data, &strings(&["a"]), &sdata));
    assert!(try_frame_from_vecs(keys.clone(), ragged, skeys.clone(), sdata.clone()).is_none());
    let f = try_frame_from_vecs(keys, data, skeys, sdata).unwrap();
    assert_eq!(f.num_rows(), 2);
    assert_eq!(f.num_cols(), 3);
}

#[test]
fn table_columns_are_typed_by_their_cells() {
    let f: NodFrame<i64> = frame_from_table(
        strings(&["name", "n", "mixed", "m"]),
        vec![
            strings(&["x", "1", "7", "-3"]),
            strings(&["y", "2", "q", "+4"]),
        ],
    )
    .unwrap();
    assert_eq!(
        f.to_string(),
        "frame:\nn: [1, 2]\nm: [-3, 4]\nname: [x, y]\nmixed: [7, q]\nNum Rows: 2"
    );
    assert_eq!(f.numeric_index(), vec![0, 1]);
}

#[test]
fn table_faults_are_told_apart() {
    let ragged = frame_from_table::<i64>(
        strings(&["a", "b"]),
        vec![strings(&["1", "2"]), strings(&["3"])],
    );
    assert_eq!(ragged.err(), Some(FrameError::UnequalLengths));
    let empty = frame_from_table::<i64>(strings(&["a", "b"]), Vec::new());
    assert_eq!(empty.err(), Some(FrameError::NoRows));
    let discrete = frame_from_table::<i64>(strings(&["a"]), vec![strings(&["x"])]);
    assert_eq!(discrete.err(), Some(FrameError::NoNumericColumn));
    let twice = frame_from_table::<i64>(strings(&["a", "a"]), vec![strings(&["1", "x"])]);
    assert_eq!(twice.err(), Some(FrameError::DuplicateName));
}

#[test]
fn csv_text_is_read_by_the_codec() {
    let f = frame_from_csv::<i64>(b"id,label\n1,\"a,b\"\n2,c\n").unwrap();
    assert_eq!(f.to_string(), "frame:\nid: [1, 2]\nlabel: [a,b, c]\nNum Rows: 2");
    let bad = frame_from_csv::<i64>(b"id,label\n1\n");
    assert!(matches!(bad, Err(FrameError::Codec(_))));
    let none = frame_from_csv::<i64>(b"id,label\n");
    assert_eq!(none.err(), Some(FrameError::NoRows));
}

#[test]
fn csv_round_trip_keeps_the_written_form() {
    let f: NodFrame<i64> = frame_from_vecs(
        strings(&["n"]),
        vec![vec![-5, 0, i64::MAX, i64::MIN]],
        strings(&["s"]),
        vec![strings(&["plain", "with,comma", "with \"quote\"", "x y"])],
    );
    let text = f.to_csv().unwrap();
    let g = frame_from_csv::<i64>(&text).unwrap();
    assert_eq!(f.to_string(), g.to_string());
    assert_eq!(g.num_rows(), 4);
}
