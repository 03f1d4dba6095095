use mongobar::json::name_in;
use mongobar::op_logs::{OpLogs, OpReadMode};
use mongobar::strings::{
    copy_lines, i64_text, insert_line, join, sort_lines, truncate, u128_text, usize_text,
};

#[test]
fn decimal_texts_are_exact() {
    assert_eq!(u128_text(0), "0");
    assert_eq!(u128_text(7), "7");
    assert_eq!(u128_text(10), "10");
    assert_eq!(u128_text(1234567890), "1234567890");
    assert_eq!(
        u128_text(u128::MAX),
        "340282366920938463463374607431768211455"
    );
    assert_eq!(usize_text(usize::MAX), usize::MAX.to_string());
    assert_eq!(i64_text(0), "0");
    assert_eq!(i64_text(-1), "-1");
    assert_eq!(i64_text(i64::MIN), "-9223372036854775808");
    assert_eq!(i64_text(i64::MAX), "9223372036854775807");
}

#[test]
fn join_puts_the_separator_between_neighbours() {
    assert_eq!(join(&vec![], ","), "");
    assert_eq!(join(&vec!["a".to_string()], ","), "a");
    assert_eq!(
        join(&vec!["a".to_string(), "".to_string(), "c".to_string()], "|"),
        "a||c"
    );
}

#[test]
fn truncate_keeps_the_first_characters() {
    assert_eq!(truncate("hello", 3), "hel");
    assert_eq!(truncate("hello", 5), "hello");
    assert_eq!(truncate("hello", 9), "hello");
    assert_eq!(truncate("héllo", 2), "hé");
    assert_eq!(truncate("abc", 0), "");
}

#[test]
fn names_are_compared_character_by_character() {
    let names = vec!["abc".to_string(), "".to_string(), "é".to_string()];
    assert!(name_in(&names, "abc"));
    assert!(name_in(&names, ""));
    assert!(name_in(&names, "é"));
    assert!(!name_in(&names, "abd"));
    assert!(!name_in(&names, "ab"));
    assert!(!name_in(&names, "e"));
    assert!(!name_in(&vec![], "abc"));
}

#[test]
fn a_filter_picks_the_lines_that_hold_its_text() {
    let lines = vec![
        "{\"id\":\"hello world\"}".to_string(),
        "{\"id\":\"hello\"}".to_string(),
        "{\"id\":\"low\"}".to_string(),
    ];
    let count = |filter: &str| {
        OpLogs::new(OpReadMode::FullLine(Some(filter.to_string())), vec![])
            .init(&lines, 1)
            .len()
    };
    assert_eq!(count("lo w"), 1);
    assert_eq!(count("hello"), 2);
    assert_eq!(count("lo"), 3);
    assert_eq!(count(""), 3);
    assert_eq!(count("world!"), 0);
}

#[test]
fn insertion_follows_the_dictionary_order() {
    let place = |sorted: &[&str], text: &str| {
        let mut lines: Vec<String> = sorted.iter().map(|s| s.to_string()).collect();
        insert_line(&mut lines, text.to_string());
        lines
    };
    assert_eq!(place(&[], "a"), vec!["a"]);
    assert_eq!(place(&["a"], ""), vec!["", "a"]);
    assert_eq!(place(&["a", "b"], "ab"), vec!["a", "ab", "b"]);
    assert_eq!(place(&["a", "b"], "a"), vec!["a", "a", "b"]);
    assert_eq!(place(&["a", "b"], "c"), vec!["a", "b", "c"]);
    assert_eq!(place(&["a", "b"], "Z"), vec!["Z", "a", "b"]);
    assert_eq!(place(&["ab", "b"], "a"), vec!["a", "ab", "b"]);
    assert_eq!(place(&["a", "z"], "é"), vec!["a", "z", "é"]);
}

#[test]
fn sort_lines_orders_and_keeps_repeats() {
    let lines = vec![
        "name.first".to_string(),
        "age".to_string(),
        "name".to_string(),
        "age".to_string(),
        "_id".to_string(),
    ];
    assert_eq!(
        sort_lines(&lines),
        vec!["_id", "age", "age", "name", "name.first"]
    );
    assert_eq!(sort_lines(&vec![]), Vec::<String>::new());
}

#[test]
fn copy_lines_copies_in_order() {
    let lines = vec!["b".to_string(), "a".to_string()];
    assert_eq!(copy_lines(&lines), lines);
}
