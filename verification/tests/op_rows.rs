use mongobar::json::Json;
use mongobar::op_row::{Op, OpRow};

fn text(s: &str) -> Json {
    Json::Str(s.to_string())
}

fn sample() -> OpRow {
    OpRow {
        id: "abc".to_string(),
        op: Op::Find,
        db: "t".to_string(),
        coll: "c".to_string(),
        ns: "t.c".to_string(),
        ts: 1700000000123,
        cmd: Json::Object(vec![
            ("find".to_string(), text("c")),
            (
                "filter".to_string(),
                Json::Object(vec![("a".to_string(), Json::Int(1))]),
            ),
        ]),
        args: Json::Object(vec![]),
        key: "Find:a".to_string(),
        hash: "h".to_string(),
    }
}

#[test]
fn every_kind_has_its_tag() {
    let kinds = [
        (Op::Noop, "None"),
        (Op::Find, "Find"),
        (Op::Count, "Count"),
        (Op::Insert, "Insert"),
        (Op::Update, "Update"),
        (Op::Delete, "Delete"),
        (Op::Command, "Command"),
        (Op::Aggregate, "Aggregate"),
        (Op::GetMore, "GetMore"),
        (Op::FindAndModify, "FindAndModify"),
    ];
    for (op, tag) in kinds {
        assert_eq!(op.name(), tag);
        assert_eq!(Op::from_name(tag), Some(op));
    }
    assert_eq!(Op::from_name("find"), None);
    assert_eq!(Op::from_name(""), None);
}

#[test]
fn command_names_and_writes() {
    assert_eq!(Op::Find.command_name(), Some("find"));
    assert_eq!(Op::GetMore.command_name(), Some("getMore"));
    assert_eq!(Op::FindAndModify.command_name(), Some("findAndModify"));
    assert_eq!(Op::Command.command_name(), None);
    assert_eq!(Op::Noop.command_name(), None);
    assert!(Op::Insert.is_write());
    assert!(Op::Update.is_write());
    assert!(Op::Delete.is_write());
    assert!(Op::FindAndModify.is_write());
    assert!(!Op::Find.is_write());
    assert!(!Op::Aggregate.is_write());
    assert!(!Op::Noop.is_write());
}

#[test]
fn to_json_writes_the_ten_fields_in_order() {
    let j = sample().to_json();
    match &j {
        Json::Object(fields) => {
            let names: Vec<&str> = fields.iter().map(|f| f.0.as_str()).collect();
            assert_eq!(
                names,
                vec!["id", "op", "db", "coll", "ns", "ts", "cmd", "args", "key", "hash"]
            );
        }
        _ => panic!("a record is written as an object"),
    }
    assert_eq!(j.get("op"), Some(&text("Find")));
    assert_eq!(j.get("ts"), Some(&Json::Int(1700000000123)));
}

#[test]
fn a_record_is_read_back_from_its_line() {
    let row = sample();
    let line = row.to_line();
    assert!(!line.contains('\n'));
    assert_eq!(OpRow::parse_line(&line), Some(row));
}

#[test]
fn a_line_with_few_fields_gets_the_defaults() {
    let row =
        OpRow::parse_line("{\"op\":\"Insert\",\"cmd\":{\"documents\":[{\"_id\":1}]}}").unwrap();
    assert_eq!(row.op, Op::Insert);
    assert_eq!(row.id, "");
    assert_eq!(row.db, "");
    assert_eq!(row.ts, 0);
    assert_eq!(
        row.cmd,
        Json::Object(vec![(
            "documents".to_string(),
            Json::Array(vec![Json::Object(vec![("_id".to_string(), Json::Int(1))])])
        )])
    );
    assert_eq!(row.args, Json::Null);
    let bare = OpRow::parse_line("{}").unwrap();
    assert_eq!(bare.op, Op::Noop);
    assert_eq!(bare.cmd, Json::Null);
}

#[test]
fn malformed_lines_stand_for_no_record() {
    assert_eq!(OpRow::parse_line("not json"), None);
    assert_eq!(OpRow::parse_line("[1,2]"), None);
    assert_eq!(OpRow::parse_line("{\"op\":\"Fly\"}"), None);
    assert_eq!(OpRow::parse_line("{\"op\":3}"), None);
    assert_eq!(OpRow::parse_line("{\"id\":7}"), None);
    assert_eq!(OpRow::parse_line("{\"ts\":\"now\"}"), None);
    assert_eq!(OpRow::parse_line("{\"ts\":1.5}"), None);
}

#[test]
fn copy_of_a_record_is_equal_to_it() {
    assert_eq!(sample().copy(), sample());
}
