use rspread::names::generate_nice_copy_name;
use rspread::table::{extend_table, Table};

fn names(list: &[&str]) -> Vec<String> {
    list.iter().map(|s| s.to_string()).collect()
}

#[test]
fn test_generate_nice_copy_name() {
    let from_name = "test";
    let from_vec = vec![
        "test(1)".to_string(),
        "test(2)".to_string(),
        "test(3)".to_string(),
    ];
    let copy_name = generate_nice_copy_name(from_name, from_vec);
    assert_eq!(copy_name, "test(4)");

    let from_name = "test(2)";
    let from_vec = vec![
        "test(1)".to_string(),
        "test(2)".to_string(),
        "test(3)".to_string(),
    ];
    let copy_name = generate_nice_copy_name(from_name, from_vec);
    assert_eq!(copy_name, "test(4)");

    let from_name = "test2)";
    let from_vec = vec![
        "test(1)".to_string(),
        "test(2)".to_string(),
        "test(3)".to_string(),
    ];
    let copy_name = generate_nice_copy_name(from_name, from_vec);
    assert_eq!(copy_name, "test2)(2)");

    let from_name = "test2";
    let from_vec = vec![
        "test(1)".to_string(),
        "test(2)".to_string(),
        "test(3)".to_string(),
    ];
    let copy_name = generate_nice_copy_name(from_name, from_vec);
    assert_eq!(copy_name, "test2(2)");
}

#[test]
fn copy_name_plain_stem_skips_taken_counters() {
    let r = generate_nice_copy_name("test", names(&["test(1)", "test(2)", "test(3)"]));
    assert_eq!(r, "test(4)");
}

#[test]
fn copy_name_continues_existing_counter() {
    let r = generate_nice_copy_name("test(2)", names(&["test(1)", "test(2)", "test(3)"]));
    assert_eq!(r, "test(4)");
}

#[test]
fn copy_name_unmatched_paren_is_plain_stem() {
    let r = generate_nice_copy_name("test2)", names(&["test(1)", "test(2)", "test(3)"]));
    assert_eq!(r, "test2)(2)");
}

#[test]
fn copy_name_digits_without_parens_are_plain_stem() {
    let r = generate_nice_copy_name("test2", names(&["test(1)", "test(2)", "test(3)"]));
    assert_eq!(r, "test2(2)");
}

#[test]
fn copy_name_never_in_avoid_list() {
    let avoid = names(&["a(2)", "a(3)", "a(4)", "a(5)", "b"]);
    let r = generate_nice_copy_name("a", avoid.clone());
    assert!(!avoid.contains(&r));
    assert_eq!(r, "a(6)");
}

#[test]
fn copy_name_reads_multi_digit_counter() {
    assert_eq!(generate_nice_copy_name("a(12)", vec![]), "a(13)");
    assert_eq!(generate_nice_copy_name("a(007)", vec![]), "a(8)");
}

#[test]
fn copy_name_edge_stems() {
    assert_eq!(generate_nice_copy_name("", vec![]), "(2)");
    assert_eq!(generate_nice_copy_name(")", vec![]), ")(2)");
    assert_eq!(generate_nice_copy_name("()", vec![]), "()(2)");
    assert_eq!(generate_nice_copy_name("x()", vec![]), "x()(2)");
    assert_eq!(generate_nice_copy_name("(9)", names(&["(10)"])), "(11)");
}

#[test]
fn copy_name_multibyte_stem() {
    assert_eq!(generate_nice_copy_name("äöü(1)", names(&["äöü(2)"])), "äöü(3)");
    assert_eq!(generate_nice_copy_name("日本", vec![]), "日本(2)");
}

#[test]
fn copy_name_huge_counter_is_plain_stem() {
    let r = generate_nice_copy_name("x(99999999999999999999)", vec![]);
    assert_eq!(r, "x(99999999999999999999)(2)");
}

#[test]
fn generic_column_name_skips_taken() {
    let mut t = Table::new();
    t.create_column("Column 2".to_string()).unwrap();
    t.create_column("Column 3".to_string()).unwrap();
    assert_eq!(t.generate_column_name(1), "Column 1");
    assert_eq!(t.generate_column_name(2), "Column 4");
}

#[test]
fn extend_creates_generic_columns_and_rows() {
    let mut t = Table::new();
    extend_table(&mut t, 2, 3);
    assert_eq!(t.column_count(), 2);
    assert_eq!(t.row_count(), 3);
    assert_eq!(t.column_names(), names(&["Column 1", "Column 2"]));
    assert_eq!(t.cell(1, 2), "");
}

#[test]
fn extend_never_shrinks_and_is_idempotent() {
    let mut t = Table::new();
    extend_table(&mut t, 3, 4);
    extend_table(&mut t, 3, 4);
    assert_eq!((t.column_count(), t.row_count()), (3, 4));
    extend_table(&mut t, 1, 2);
    assert_eq!((t.column_count(), t.row_count()), (3, 4));
    extend_table(&mut t, 0, 0);
    assert_eq!((t.column_count(), t.row_count()), (3, 4));
}

#[test]
fn extend_avoids_existing_generic_names() {
    let mut t = Table::new();
    t.create_column("Column 2".to_string()).unwrap();
    extend_table(&mut t, 3, 0);
    assert_eq!(t.column_names(), names(&["Column 2", "Column 3", "Column 4"]));
}
