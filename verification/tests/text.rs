use sync_team::text::{bool_str, contains_name, decimal_string, put, same_texts, sort_texts, str_eq};

fn s(text: &str) -> String {
    text.to_string()
}

#[test]
fn strings_are_compared_by_their_characters() {
    assert!(str_eq("rust-lang", "rust-lang"));
    assert!(!str_eq("rust-lang", "rust-lang-nursery"));
    assert!(str_eq("", ""));
    assert!(!str_eq("a", "A"));
    assert!(contains_name(&vec![s("a"), s("b")], "b"));
    assert!(!contains_name(&vec![s("a"), s("b")], "c"));
    assert!(!contains_name(&vec![], ""));
    assert!(same_texts(&vec![s("a"), s("b")], &vec![s("a"), s("b")]));
    assert!(!same_texts(&vec![s("a"), s("b")], &vec![s("b"), s("a")]));
    assert!(!same_texts(&vec![s("a")], &vec![s("a"), s("a")]));
}

#[test]
fn sorting_orders_by_code_point() {
    let mut texts = vec![s("b"), s("a"), s("ab"), s(""), s("B"), s("é"), s("z"), s("a"), s("\u{10000}"), s("\u{ffff}")];
    sort_texts(&mut texts);
    assert_eq!(
        texts,
        vec![s(""), s("B"), s("a"), s("a"), s("ab"), s("b"), s("z"), s("é"), s("\u{ffff}"), s("\u{10000}")]
    );
    let mut none: Vec<String> = vec![];
    sort_texts(&mut none);
    assert!(none.is_empty());
}

#[test]
fn numbers_are_written_in_decimal() {
    assert_eq!(decimal_string(0), "0");
    assert_eq!(decimal_string(7), "7");
    assert_eq!(decimal_string(10), "10");
    assert_eq!(decimal_string(99), "99");
    assert_eq!(decimal_string(100), "100");
    assert_eq!(decimal_string(109), "109");
    assert_eq!(decimal_string(255), "255");
    for n in 0..=255u8 {
        assert_eq!(decimal_string(n), format!("{}", n));
    }
    assert_eq!(bool_str(true), "true");
    assert_eq!(bool_str(false), "false");
}

#[test]
fn pieces_are_appended() {
    let mut out = s("a");
    put(&mut out, "bc");
    put(&mut out, "");
    put(&mut out, "d");
    assert_eq!(out, "abcd");
}
