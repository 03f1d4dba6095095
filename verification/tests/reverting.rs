use mongobar::dispatch::{dispatch, OpRunMode, Verb};
use mongobar::json::Json;
use mongobar::op_logs::OpLogs;
use mongobar::op_row::{Op, OpRow};
use mongobar::resume::{export_queries, export_rows, resume_queries, resume_rows};
use mongobar::revert::{op_revert, revert_row};

fn parse(text: &str) -> Json {
    Json::parse(text).unwrap()
}

fn row(id: &str, op: Op, cmd: &str) -> OpRow {
    OpRow {
        id: id.to_string(),
        op,
        db: "d".to_string(),
        coll: "c".to_string(),
        ns: "d.c".to_string(),
        ts: 42,
        cmd: parse(cmd),
        args: parse("{\"x\":1}"),
        key: "key".to_string(),
        hash: "hash".to_string(),
    }
}

fn undo(id: &str, op: Op, cmd: &str) -> OpRow {
    OpRow {
        id: id.to_string(),
        op,
        db: "d".to_string(),
        coll: "c".to_string(),
        ns: "d.c".to_string(),
        ts: 42,
        cmd: parse(cmd),
        args: Json::Object(vec![]),
        key: String::new(),
        hash: String::new(),
    }
}

/// The `_id`s that are left of `ids` after the calls of `row` were made on a
/// collection that holds a document for each of `ids`.
fn run_deletes(ids: &mut Vec<Json>, row: &OpRow) {
    for call in dispatch(row, OpRunMode::ReadWrite).calls {
        assert_eq!(call.verb, Verb::DeleteMany);
        let picked = call
            .doc
            .get("_id")
            .unwrap()
            .get("$in")
            .unwrap()
            .as_array()
            .unwrap();
        ids.retain(|id| !picked.contains(id));
    }
}

#[test]
fn insert_then_revert() {
    let forward = vec![row(
        "i1",
        Op::Insert,
        "{\"documents\":[{\"_id\":1,\"x\":1},{\"_id\":2,\"x\":2}]}",
    )];
    let revert = op_revert(&forward);
    assert_eq!(
        revert,
        vec![undo(
            "i1",
            Op::Delete,
            "{\"deletes\":[{\"q\":{\"_id\":{\"$in\":[1,2]}},\"limit\":0}]}"
        )]
    );
    let mut ids = vec![Json::Int(1), Json::Int(2)];
    for r in &revert {
        run_deletes(&mut ids, r);
    }
    assert!(ids.is_empty());
}

#[test]
fn revert_deletes_exactly_the_inserted_ids_latest_first() {
    let forward = vec![
        row("a", Op::Insert, "{\"documents\":[{\"_id\":1},{\"_id\":\"two\"}]}"),
        row("f", Op::Find, "{\"find\":\"c\"}"),
        row("b", Op::Insert, "{\"documents\":[{\"_id\":3},{\"no_id\":true}]}"),
        row("u", Op::Update, "{\"updates\":[{\"q\":{},\"u\":{}}]}"),
        row("c", Op::Insert, "{\"documents\":[]}"),
        row("d", Op::Insert, "{\"documents\":5}"),
    ];
    let revert = op_revert(&forward);
    let ids: Vec<&str> = revert.iter().map(|r| r.id.as_str()).collect();
    assert_eq!(ids, vec!["c", "b", "a"]);
    assert_eq!(
        revert[0].cmd,
        parse("{\"deletes\":[{\"q\":{\"_id\":{\"$in\":[]}},\"limit\":0}]}")
    );
    assert_eq!(
        revert[1].cmd,
        parse("{\"deletes\":[{\"q\":{\"_id\":{\"$in\":[3]}},\"limit\":0}]}")
    );
    let mut docs = vec![
        Json::Int(0),
        Json::Int(1),
        Json::Str("two".to_string()),
        Json::Int(3),
        Json::Int(4),
    ];
    for r in &revert {
        assert_eq!(r.op, Op::Delete);
        run_deletes(&mut docs, r);
    }
    assert_eq!(docs, vec![Json::Int(0), Json::Int(4)]);
}

#[test]
fn revert_row_undoes_inserts_only() {
    for op in [
        Op::Noop,
        Op::Find,
        Op::Count,
        Op::Update,
        Op::Delete,
        Op::Command,
        Op::Aggregate,
        Op::GetMore,
        Op::FindAndModify,
    ] {
        assert_eq!(revert_row(&row("x", op, "{\"documents\":[{\"_id\":1}]}")), None);
    }
    assert!(revert_row(&row("x", Op::Insert, "{\"documents\":[{\"_id\":1}]}")).is_some());
    assert_eq!(revert_row(&row("x", Op::Insert, "{}")), None);
}

#[test]
fn the_revert_log_is_written_and_read_like_any_log() {
    let revert = op_revert(&vec![row("a", Op::Insert, "{\"documents\":[{\"_id\":9}]}")]);
    let text: String = revert.iter().map(OpLogs::push_line).collect();
    let lines: Vec<String> = text.lines().map(|l| l.to_string()).collect();
    assert_eq!(lines.len(), 1);
    assert_eq!(OpRow::parse_line(&lines[0]).unwrap(), revert[0]);
}

#[test]
fn resume_queries_by_kind() {
    assert_eq!(
        resume_queries(&row(
            "i",
            Op::Insert,
            "{\"documents\":[{\"_id\":1,\"a\":1},{\"b\":2},{\"_id\":\"x\"}]}"
        )),
        vec![parse("{\"_id\":1}"), parse("{\"_id\":\"x\"}")]
    );
    assert_eq!(
        resume_queries(&row(
            "u",
            Op::Update,
            "{\"updates\":[{\"q\":{\"a\":1},\"u\":{}},{\"u\":{}},{\"q\":{\"b\":2}}]}"
        )),
        vec![parse("{\"a\":1}"), parse("{\"b\":2}")]
    );
    assert_eq!(
        resume_queries(&row("u", Op::Update, "{\"q\":{\"a\":1},\"u\":{}}")),
        vec![parse("{\"a\":1}")]
    );
    assert_eq!(
        resume_queries(&row("d", Op::Delete, "{\"deletes\":[{\"q\":{\"a\":1},\"limit\":0}]}")),
        vec![parse("{\"a\":1}")]
    );
    assert_eq!(
        resume_queries(&row("m", Op::FindAndModify, "{\"query\":{\"a\":1},\"remove\":true}")),
        vec![parse("{\"a\":1}")]
    );
    assert!(resume_queries(&row("m", Op::FindAndModify, "{}")).is_empty());
    for op in [Op::Noop, Op::Find, Op::Count, Op::Command, Op::Aggregate, Op::GetMore] {
        assert!(resume_queries(&row("r", op, "{\"q\":{\"a\":1},\"query\":{}}")).is_empty());
    }
}

#[test]
fn resume_of_an_insert_restores_or_deletes() {
    let r = row("i", Op::Insert, "{\"documents\":[{\"_id\":1,\"a\":2}]}");
    let filter = parse("{\"_id\":1}");
    assert_eq!(
        resume_rows(&r, &filter, &vec![parse("{\"_id\":1,\"a\":1}")]),
        vec![undo(
            "i",
            Op::Update,
            "{\"updates\":[{\"q\":{\"_id\":1},\"u\":{\"$set\":{\"_id\":1,\"a\":1}},\"multi\":false,\"upsert\":false}]}"
        )]
    );
    assert_eq!(
        resume_rows(&r, &filter, &vec![]),
        vec![undo(
            "i",
            Op::Delete,
            "{\"deletes\":[{\"q\":{\"_id\":1},\"limit\":0}]}"
        )]
    );
}

#[test]
fn resume_of_an_update_sets_each_document_back() {
    let r = row("u", Op::Update, "{\"updates\":[{\"q\":{\"a\":1},\"u\":{\"$set\":{\"a\":2}}}]}");
    let found = vec![
        parse("{\"_id\":7,\"a\":1}"),
        parse("{\"a\":1}"),
        parse("{\"_id\":8,\"a\":1,\"b\":0}"),
    ];
    assert_eq!(
        resume_rows(&r, &parse("{\"a\":1}"), &found),
        vec![
            undo(
                "u",
                Op::Update,
                "{\"updates\":[{\"q\":{\"_id\":7},\"u\":{\"$set\":{\"_id\":7,\"a\":1}},\"multi\":false,\"upsert\":false}]}"
            ),
            undo(
                "u",
                Op::Update,
                "{\"updates\":[{\"q\":{\"_id\":8},\"u\":{\"$set\":{\"_id\":8,\"a\":1,\"b\":0}},\"multi\":false,\"upsert\":false}]}"
            ),
        ]
    );
    assert!(resume_rows(&r, &parse("{\"a\":1}"), &vec![]).is_empty());
}

#[test]
fn resume_of_a_delete_inserts_what_was_there() {
    let r = row("d", Op::Delete, "{\"deletes\":[{\"q\":{\"a\":1},\"limit\":0}]}");
    let found = vec![parse("{\"_id\":7,\"a\":1}"), parse("{\"_id\":8,\"a\":1}")];
    assert_eq!(
        resume_rows(&r, &parse("{\"a\":1}"), &found),
        vec![
            undo("d", Op::Insert, "{\"documents\":[{\"_id\":7,\"a\":1}]}"),
            undo("d", Op::Insert, "{\"documents\":[{\"_id\":8,\"a\":1}]}"),
        ]
    );
}

#[test]
fn resume_of_a_find_and_modify_depends_on_remove() {
    let found = vec![parse("{\"_id\":7,\"a\":1}")];
    let removing = row("m", Op::FindAndModify, "{\"query\":{\"a\":1},\"remove\":true}");
    assert_eq!(
        resume_rows(&removing, &parse("{\"a\":1}"), &found),
        vec![undo("m", Op::Insert, "{\"documents\":[{\"_id\":7,\"a\":1}]}")]
    );
    let changing = row("m", Op::FindAndModify, "{\"query\":{\"a\":1},\"update\":{}}");
    assert_eq!(
        resume_rows(&changing, &parse("{\"a\":1}"), &found),
        vec![undo(
            "m",
            Op::Update,
            "{\"updates\":[{\"q\":{\"_id\":7},\"u\":{\"$set\":{\"_id\":7,\"a\":1}},\"multi\":false,\"upsert\":false}]}"
        )]
    );
    assert!(resume_rows(&row("f", Op::Find, "{}"), &parse("{}"), &found).is_empty());
}

#[test]
fn export_takes_the_documents_that_updates_touch() {
    let u = row("u", Op::Update, "{\"updates\":[{\"q\":{\"a\":1},\"u\":{}}]}");
    assert_eq!(export_queries(&u), vec![parse("{\"a\":1}")]);
    let found = vec![parse("{\"_id\":1}"), parse("{\"x\":2}")];
    assert_eq!(
        export_rows(&u, &found),
        vec![
            undo("u", Op::Insert, "{\"documents\":[{\"_id\":1}]}"),
            undo("u", Op::Insert, "{\"documents\":[{\"x\":2}]}"),
        ]
    );
    let changing = row("m", Op::FindAndModify, "{\"query\":{\"a\":1},\"remove\":false}");
    assert_eq!(export_queries(&changing), vec![parse("{\"a\":1}")]);
    assert_eq!(export_rows(&changing, &found).len(), 2);
    let removing = row("m", Op::FindAndModify, "{\"query\":{\"a\":1},\"remove\":true}");
    assert!(export_queries(&removing).is_empty());
    assert!(export_rows(&removing, &found).is_empty());
    let d = row("d", Op::Delete, "{\"deletes\":[{\"q\":{\"a\":1}}]}");
    assert!(export_queries(&d).is_empty());
    assert!(export_rows(&d, &found).is_empty());
}
