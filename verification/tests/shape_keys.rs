use mongobar::json::Json;
use mongobar::op_row::{Op, OpRow};
use mongobar::shape::make_shape_key;

fn parse(text: &str) -> Json {
    Json::parse(text).unwrap()
}

#[test]
fn shape_key_sorts_the_paths_of_the_predicate() {
    let cmd = parse("{\"find\":\"c\",\"filter\":{\"name\":{\"first\":\"a\",\"last\":\"b\"},\"age\":{\"$gt\":3},\"_id\":7}}");
    assert_eq!(
        make_shape_key(Op::Find, &cmd),
        "Find:_id,age.$gt,name.first,name.last"
    );
}

#[test]
fn shape_key_does_not_depend_on_the_values() {
    let a = parse("{\"filter\":{\"b\":1,\"a\":\"x\"}}");
    let b = parse("{\"filter\":{\"a\":[1,2,3],\"b\":null}}");
    assert_eq!(make_shape_key(Op::Find, &a), "Find:a,b");
    assert_eq!(make_shape_key(Op::Find, &a), make_shape_key(Op::Find, &b));
}

#[test]
fn shape_key_of_each_kind() {
    let cmd = parse(
        "{\"query\":{\"q1\":1},\"filter\":{\"f1\":1},\"q\":{\"top\":1},\"updates\":[{\"q\":{\"u1\":1,\"a\":2}},{\"q\":{\"u2\":1}}],\"deletes\":[]}",
    );
    assert_eq!(make_shape_key(Op::Find, &cmd), "Find:f1");
    assert_eq!(make_shape_key(Op::Count, &cmd), "Count:q1");
    assert_eq!(make_shape_key(Op::FindAndModify, &cmd), "FindAndModify:q1");
    assert_eq!(make_shape_key(Op::Update, &cmd), "Update:a,u1");
    assert_eq!(make_shape_key(Op::Delete, &cmd), "Delete:top");
    assert_eq!(make_shape_key(Op::Aggregate, &cmd), "Aggregate:");
    assert_eq!(make_shape_key(Op::Insert, &cmd), "Insert:");
    assert_eq!(make_shape_key(Op::Noop, &cmd), "None:");
    assert_eq!(make_shape_key(Op::Find, &Json::Null), "Find:");
    assert_eq!(make_shape_key(Op::Find, &parse("{\"filter\":{}}")), "Find:");
}

#[test]
fn normalize_strips_session_fields_and_puts_the_command_first() {
    let row = OpRow::parse_line(
        "{\"id\":\"i\",\"op\":\"Find\",\"db\":\"d\",\"coll\":\"c\",\"cmd\":{\"filter\":{\"a\":1},\"lsid\":{\"x\":1},\"find\":\"c\",\"$clusterTime\":{},\"$db\":\"d\",\"comment\":\"k\",\"limit\":5}}",
    )
    .unwrap();
    let row = row.normalize(&vec!["comment".to_string()]);
    assert_eq!(
        row.cmd,
        parse("{\"filter\":{\"a\":1},\"find\":\"c\",\"limit\":5}")
    );
    assert_eq!(
        row.args,
        parse("{\"find\":\"c\",\"filter\":{\"a\":1},\"limit\":5}")
    );
    assert_eq!(row.key, "Find:a");
    assert_eq!(row.ns, "d.c");
    assert_eq!(row.id, "i");
}

#[test]
fn normalize_keeps_a_given_namespace_and_a_command_without_its_name() {
    let row = OpRow::parse_line(
        "{\"op\":\"Command\",\"db\":\"d\",\"coll\":\"c\",\"ns\":\"other.ns\",\"cmd\":{\"ping\":1}}",
    )
    .unwrap()
    .normalize(&vec![]);
    assert_eq!(row.ns, "other.ns");
    assert_eq!(row.args, parse("{\"ping\":1}"));
    assert_eq!(row.key, "Command:");
    let bare = OpRow::parse_line("{\"op\":\"Find\",\"db\":\"d\"}").unwrap().normalize(&vec![]);
    assert_eq!(bare.ns, "");
    assert_eq!(bare.cmd, Json::Null);
    assert_eq!(bare.args, Json::Null);
}

fn shaped(op: Op, cmd: &str) -> bool {
    OpRow {
        id: String::new(),
        op,
        db: String::new(),
        coll: String::new(),
        ns: String::new(),
        ts: 0,
        cmd: parse(cmd),
        args: Json::Null,
        key: String::new(),
        hash: String::new(),
    }
    .is_well_shaped()
}

#[test]
fn a_payload_holds_what_its_kind_needs() {
    assert!(shaped(Op::Insert, "{\"documents\":[]}"));
    assert!(!shaped(Op::Insert, "{\"documents\":{}}"));
    assert!(!shaped(Op::Insert, "{}"));
    assert!(shaped(Op::Update, "{\"updates\":[{\"q\":{},\"u\":{}},{\"q\":1,\"u\":2}]}"));
    assert!(!shaped(Op::Update, "{\"updates\":[{\"q\":{},\"u\":{}},{\"q\":{}}]}"));
    assert!(shaped(Op::Update, "{\"updates\":[]}"));
    assert!(shaped(Op::Update, "{\"q\":{},\"u\":{}}"));
    assert!(shaped(Op::Update, "{\"updates\":7,\"q\":{},\"u\":{}}"));
    assert!(!shaped(Op::Update, "{\"q\":{}}"));
    assert!(!shaped(Op::Update, "{}"));
    assert!(shaped(Op::Aggregate, "{\"pipeline\":[]}"));
    assert!(!shaped(Op::Aggregate, "{\"pipeline\":{}}"));
    assert!(shaped(Op::GetMore, "{\"originatingCommand\":{}}"));
    assert!(!shaped(Op::GetMore, "{\"getMore\":1}"));
    for op in [Op::Noop, Op::Find, Op::Count, Op::Delete, Op::Command, Op::FindAndModify] {
        assert!(shaped(op, "{}"));
    }
}

#[test]
fn a_namespace_fits_its_database_and_collection() {
    let row = |ns: &str, db: &str, coll: &str| OpRow {
        id: String::new(),
        op: Op::Find,
        db: db.to_string(),
        coll: coll.to_string(),
        ns: ns.to_string(),
        ts: 0,
        cmd: Json::Null,
        args: Json::Null,
        key: String::new(),
        hash: String::new(),
    };
    assert!(row("d.c", "d", "c").has_consistent_ns());
    assert!(!row("d.x", "d", "c").has_consistent_ns());
    assert!(!row("dc", "d", "c").has_consistent_ns());
    assert!(row("", "d", "c").has_consistent_ns());
    assert!(row("anything", "", "c").has_consistent_ns());
    assert!(row("anything", "d", "").has_consistent_ns());
    assert!(row("d.c", "d", "c").normalize(&vec![]).has_consistent_ns());
    assert!(row("", "d", "c").normalize(&vec![]).has_consistent_ns());
}
