use mongobar::json::Json;
use mongobar::op_logs::{reverse_file, reverse_text, OpLogs, OpReadMode};
use mongobar::strings::{drop_empty, lines_of, text_of};
use mongobar::op_row::{Op, OpRow};

fn line(id: &str) -> String {
    format!(
        "{{\"id\":\"{}\",\"op\":\"Find\",\"db\":\"d\",\"coll\":\"c\",\"cmd\":{{\"find\":\"c\",\"filter\":{{\"a\":1}},\"lsid\":{{\"id\":1}},\"$db\":\"d\"}}}}",
        id
    )
}

fn ids(logs: &mut OpLogs, calls: usize) -> Vec<Option<String>> {
    (0..calls).map(|_| logs.read(7, 9).map(|r| r.id)).collect()
}

#[test]
fn init_skips_empty_and_malformed_lines_and_notes_the_malformed() {
    let lines = vec![
        line("a"),
        String::new(),
        "oops".to_string(),
        line("b"),
        "{\"op\":\"Nope\"}".to_string(),
    ];
    let logs = OpLogs::new(OpReadMode::StreamLine, vec![]).init(&lines, 1);
    assert_eq!(logs.len(), 2);
    assert_eq!(logs.rows[0].id, "a");
    assert_eq!(logs.rows[1].id, "b");
    assert_eq!(logs.malformed, vec![2, 4]);
    assert_eq!(logs.cursor, 0);
    assert_eq!(logs.stride, 1);
}

#[test]
fn init_normalizes_each_record() {
    let logs = OpLogs::new(OpReadMode::StreamLine, vec!["filter".to_string()])
        .init(&vec![line("a")], 1);
    let row = &logs.rows[0];
    assert_eq!(
        row.cmd,
        Json::Object(vec![("find".to_string(), Json::Str("c".to_string()))])
    );
    assert_eq!(row.args, row.cmd);
    assert_eq!(row.ns, "d.c");
    assert_eq!(row.key, "Find:");
}

#[test]
fn full_line_reads_only_lines_that_hold_the_filter() {
    let lines = vec![line("apple"), line("pear"), line("pineapple")];
    let mut logs =
        OpLogs::new(OpReadMode::FullLine(Some("apple".to_string())), vec![]).init(&lines, 1);
    assert_eq!(logs.len(), 2);
    assert_eq!(logs.read(0, 0).unwrap().id, "apple");
    assert_eq!(logs.read(0, 1).unwrap().id, "pineapple");
    assert!(logs.read(0, 2).is_none());
    let all = OpLogs::new(OpReadMode::ReadLine(false), vec![]).init(&lines, 1);
    assert_eq!(all.len(), 3);
}

#[test]
fn full_line_stripes_by_worker_and_repeats_in_every_loop() {
    let lines: Vec<String> = ["r0", "r1", "r2", "r3", "r4"].iter().map(|i| line(i)).collect();
    let mut logs = OpLogs::new(OpReadMode::FullLine(None), vec![]).init(&lines, 2);
    for _ in 0..3 {
        assert_eq!(logs.read(0, 0).unwrap().id, "r0");
        assert_eq!(logs.read(0, 1).unwrap().id, "r2");
        assert_eq!(logs.read(0, 2).unwrap().id, "r4");
        assert!(logs.read(0, 3).is_none());
        assert_eq!(logs.read(1, 0).unwrap().id, "r1");
        assert_eq!(logs.read(1, 1).unwrap().id, "r3");
        assert!(logs.read(1, 2).is_none());
    }
    assert_eq!(logs.cursor, 0);
    assert!(logs.read(usize::MAX, 1).is_none());
    assert!(logs.read(1, usize::MAX).is_none());
    assert!(logs.read(5, 0).is_none());
}

#[test]
fn full_line_for_no_worker_serves_nothing() {
    let mut logs = OpLogs::new(OpReadMode::FullLine(None), vec![]).init(&vec![line("a")], 0);
    assert!(logs.read(0, 0).is_none());
    assert!(logs.read(0, 1).is_none());
}

#[test]
fn read_line_serves_the_next_record_and_ends() {
    let lines: Vec<String> = ["a", "b", "c"].iter().map(|i| line(i)).collect();
    let mut logs = OpLogs::new(OpReadMode::ReadLine(false), vec![]).init(&lines, 4);
    assert_eq!(
        ids(&mut logs, 5),
        vec![
            Some("a".to_string()),
            Some("b".to_string()),
            Some("c".to_string()),
            None,
            None
        ]
    );
    assert_eq!(logs.cursor, 3);
}

#[test]
fn read_line_restartable_starts_over_at_the_end() {
    let lines: Vec<String> = ["a", "b"].iter().map(|i| line(i)).collect();
    let mut logs = OpLogs::new(OpReadMode::ReadLine(true), vec![]).init(&lines, 1);
    assert_eq!(
        ids(&mut logs, 5),
        vec![
            Some("a".to_string()),
            Some("b".to_string()),
            Some("a".to_string()),
            Some("b".to_string()),
            Some("a".to_string())
        ]
    );
    let mut empty = OpLogs::new(OpReadMode::ReadLine(true), vec![]).init(&vec![], 1);
    assert!(empty.read(0, 0).is_none());
}

#[test]
fn stream_line_is_one_pass() {
    let lines: Vec<String> = ["a", "b"].iter().map(|i| line(i)).collect();
    let mut logs = OpLogs::new(OpReadMode::StreamLine, vec![]).init(&lines, 1);
    assert_eq!(
        ids(&mut logs, 3),
        vec![Some("a".to_string()), Some("b".to_string()), None]
    );
}

#[test]
fn reading_the_same_lines_twice_gives_the_same_records() {
    let lines = vec![line("x"), "bad".to_string(), line("y"), line("z")];
    let mode = OpReadMode::FullLine(Some("id".to_string()));
    let first = OpLogs::new(mode.copy(), vec!["a".to_string()]).init(&lines, 3);
    let second = OpLogs::new(mode.copy(), vec!["a".to_string()]).init(&lines, 3);
    assert_eq!(first, second);
    assert_eq!(first.rows.len(), 3);
}

#[test]
fn push_line_ends_the_line_and_is_read_back() {
    let row = OpRow {
        id: "i".to_string(),
        op: Op::Delete,
        db: "d".to_string(),
        coll: "c".to_string(),
        ns: "d.c".to_string(),
        ts: -5,
        cmd: Json::Object(vec![(
            "note".to_string(),
            Json::Str("two\nlines".to_string()),
        )]),
        args: Json::Null,
        key: String::new(),
        hash: String::new(),
    };
    let text = OpLogs::push_line(&row);
    assert!(text.ends_with('\n'));
    assert_eq!(text.matches('\n').count(), 1);
    assert_eq!(text, format!("{}\n", row.to_line()));
    assert_eq!(OpRow::parse_line(text.trim_end_matches('\n')), Some(row));
}

#[test]
fn reverse_file_turns_the_lines_round() {
    let lines = vec!["1".to_string(), "2".to_string(), "3".to_string()];
    assert_eq!(reverse_file(&lines), vec!["3", "2", "1"]);
    assert_eq!(reverse_file(&reverse_file(&lines)), lines);
    assert_eq!(reverse_file(&vec![]), Vec::<String>::new());
}

#[test]
fn lines_of_a_text() {
    assert_eq!(lines_of(""), vec![""]);
    assert_eq!(lines_of("a"), vec!["a"]);
    assert_eq!(lines_of("a\n"), vec!["a", ""]);
    assert_eq!(lines_of("\n"), vec!["", ""]);
    assert_eq!(lines_of("a\n\nb c\nd"), vec!["a", "", "b c", "d"]);
    assert_eq!(lines_of("é\r\nx"), vec!["é\r", "x"]);
    assert_eq!(drop_empty(&lines_of("a\n\nb\n")), vec!["a", "b"]);
    assert_eq!(drop_empty(&lines_of("")), Vec::<String>::new());
    assert_eq!(text_of(&vec!["a".to_string(), "b".to_string()]), "a\nb\n");
    assert_eq!(text_of(&vec![]), "");
    for text in ["", "a", "a\nb", "\n\na\n"] {
        assert_eq!(lines_of(text).join("\n"), text);
    }
}

#[test]
fn reverse_text_turns_the_lines_of_a_file_round() {
    assert_eq!(reverse_text("1\n2\n3\n"), "3\n2\n1\n");
    assert_eq!(reverse_text("1\n\n2"), "2\n1\n");
    assert_eq!(reverse_text(""), "");
    assert_eq!(reverse_text("\n\n"), "");
    assert_eq!(reverse_text(&reverse_text("a\nb\nc\n")), "a\nb\nc\n");
}
