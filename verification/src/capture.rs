//! From an entry of the database profiler to an operation record.

use crate::json::{Json, JsonTree};
use crate::op_row::{Op, OpRow, OpRowView};
use crate::shape::well_shaped;
use crate::strings::{digit_char, digit_str, occurs_in, str_contains, str_eq};
use crate::text::json_text;
use vstd::prelude::*;

verus! {

/// The SHA3-256 digest of the UTF-8 bytes of a text.
pub uninterp spec fn sha3_digest(text: Seq<char>) -> Seq<u8>;

/// Trusted: `Sha3_256::digest` of the `sha3` crate on the bytes of the text. The
/// digest depends on the text alone.
#[verifier::external_body]
fn sha3_of(text: &str) -> (digest: Vec<u8>)
    ensures
        digest@ == sha3_digest(text@),
{
    <sha3::Sha3_256 as sha3::Digest>::digest(text.as_bytes()).to_vec()
}

/// The character of one hexadecimal digit, in lower case.
pub open spec fn hex_char(d: int) -> char {
    if d < 10 {
        digit_char(d)
    } else if d == 10 {
        'a'
    } else if d == 11 {
        'b'
    } else if d == 12 {
        'c'
    } else if d == 13 {
        'd'
    } else if d == 14 {
        'e'
    } else {
        'f'
    }
}

/// The bytes written as hexadecimal digits, two for each byte, the high one
/// first.
pub open spec fn hex_text(bytes: Seq<u8>) -> Seq<char>
    decreases bytes.len(),
{
    if bytes.len() == 0 {
        Seq::empty()
    } else {
        hex_text(bytes.drop_last()) + seq![
            hex_char(bytes.last() as int / 16),
            hex_char(bytes.last() as int % 16),
        ]
    }
}

/// The one-character text of a hexadecimal digit.
fn hex_str(d: u8) -> (s: &'static str)
    requires
        d < 16,
    ensures
        s@ == seq![hex_char(d as int)],
{
    if d < 10 {
        digit_str(d)
    } else {
        proof {
            reveal_strlit("a");
            reveal_strlit("b");
            reveal_strlit("c");
            reveal_strlit("d");
            reveal_strlit("e");
            reveal_strlit("f");
        }
        let s = if d == 10 {
            "a"
        } else if d == 11 {
            "b"
        } else if d == 12 {
            "c"
        } else if d == 13 {
            "d"
        } else if d == 14 {
            "e"
        } else {
            "f"
        };
        assert(s@ =~= seq![hex_char(d as int)]);
        s
    }
}

/// The bytes written as hexadecimal digits.
pub fn hex(bytes: &Vec<u8>) -> (text: String)
    ensures
        text@ == hex_text(bytes@),
{
    let mut text = String::new();
    let mut i: usize = 0;
    while i < bytes.len()
        invariant
            i <= bytes.len(),
            text@ == hex_text(bytes@.take(i as int)),
        decreases bytes.len() - i,
    {
        let byte = bytes[i];
        text.append(hex_str(byte / 16));
        text.append(hex_str(byte % 16));
        proof {
            let next = bytes@.take(i as int + 1);
            assert(next.drop_last() =~= bytes@.take(i as int));
            assert(next.last() == byte);
            assert(text@ =~= hex_text(next));
        }
        i += 1;
    }
    assert(bytes@.take(bytes.len() as int) =~= bytes@);
    text
}

/// The fingerprint of a command payload: the SHA3-256 digest of its compact
/// JSON text, in hexadecimal digits.
///
/// The text is the one that [`Json::to_text`] writes, without blanks. A tool
/// that takes the digest of another rendering of the same payload gives the
/// payload another id: ids are to be compared among logs of this library only.
pub open spec fn fingerprint_of(cmd: JsonTree) -> Seq<char> {
    hex_text(sha3_digest(json_text(cmd)))
}

/// The fingerprint of the command payload `cmd`.
pub fn fingerprint(cmd: &Json) -> (id: String)
    ensures
        id@ == fingerprint_of(cmd@),
{
    let text = cmd.to_text();
    let digest = sha3_of(text.as_str());
    hex(&digest)
}

/// The position of the first dot of a text, or the text's length where it has none.
pub open spec fn first_dot(text: Seq<char>) -> int
    decreases text.len(),
{
    if text.len() == 0 {
        0
    } else if text[0] == '.' {
        0
    } else {
        1 + first_dot(text.skip(1))
    }
}

/// The database of a namespace: what stands before its first dot.
pub open spec fn ns_db(ns: Seq<char>) -> Seq<char> {
    ns.take(first_dot(ns))
}

/// The collection of a namespace: what stands behind its first dot.
pub open spec fn ns_coll(ns: Seq<char>) -> Seq<char> {
    if first_dot(ns) < ns.len() {
        ns.skip(first_dot(ns) + 1)
    } else {
        Seq::empty()
    }
}

/// The database and the collection of the namespace `ns`.
pub fn get_db_coll(ns: &str) -> (r: (String, String))
    ensures
        r.0@ == ns_db(ns@),
        r.1@ == ns_coll(ns@),
{
    let len = ns.unicode_len();
    let mut i: usize = 0;
    proof {
        assert(ns@.skip(0) =~= ns@);
    }
    while i < len
        invariant
            len == ns@.len(),
            i <= len,
            first_dot(ns@) == i + first_dot(ns@.skip(i as int)),
        decreases len - i,
    {
        proof {
            assert(ns@.skip(i as int).skip(1) =~= ns@.skip(i as int + 1));
        }
        if ns.get_char(i) == '.' {
            let db = ns.substring_char(0, i).to_string();
            let coll = ns.substring_char(i + 1, len).to_string();
            return (db, coll);
        }
        i += 1;
    }
    (ns.to_string(), String::new())
}

/// The text of the field `key` of an object, where it holds one.
pub open spec fn str_at(tree: JsonTree, key: Seq<char>) -> Option<Seq<char>> {
    match tree.get(key) {
        Some(JsonTree::Str(s)) => Some(s),
        _ => None,
    }
}

/// A record of kind `op` for a payload, with the fingerprint of the payload as its id.
pub open spec fn captured(
    op: Op,
    ns: Seq<char>,
    db: Seq<char>,
    coll: Seq<char>,
    ts: i64,
    cmd: JsonTree,
) -> OpRowView {
    OpRowView {
        id: fingerprint_of(cmd),
        op,
        db,
        coll,
        ns,
        ts,
        cmd,
        args: JsonTree::Object(Seq::empty()),
        key: Seq::empty(),
        hash: Seq::empty(),
    }
}

/// A record that holds nothing.
pub open spec fn blank_row() -> OpRowView {
    OpRowView {
        id: Seq::empty(),
        op: Op::Noop,
        db: Seq::empty(),
        coll: Seq::empty(),
        ns: Seq::empty(),
        ts: 0,
        cmd: JsonTree::Null,
        args: JsonTree::Object(Seq::empty()),
        key: Seq::empty(),
        hash: Seq::empty(),
    }
}

/// A record for a payload whose database and collection are those of the namespace.
pub open spec fn captured_by_ns(op: Op, ns: Seq<char>, ts: i64, cmd: JsonTree) -> OpRowView {
    captured(op, ns, ns_db(ns), ns_coll(ns), ts, cmd)
}

/// The record that an entry of the profiler, taken at the millisecond `ts`, gives.
///
/// An entry gives no record where it has no namespace, kind or command, where it
/// is about the profiler's own collection, or where its command lacks what its
/// kind needs. An entry of a kind that is not replayed gives a blank record.
pub open spec fn profiled(entry: JsonTree, ts: i64) -> Option<OpRowView> {
    match (str_at(entry, "ns"@), str_at(entry, "op"@), entry.get("command"@)) {
        (Some(ns), Some(op), Some(JsonTree::Object(fields))) => {
            let cmd = JsonTree::Object(fields);
            if occurs_in("system.profile"@, ns) {
                None
            } else if op == "query"@ {
                match (str_at(entry, "queryHash"@), str_at(cmd, "$db"@), str_at(cmd, "find"@)) {
                    (Some(_), Some(db), Some(coll)) => Some(
                        captured(Op::Find, ns, db, coll, ts, cmd),
                    ),
                    _ => None,
                }
            } else if op == "insert"@ {
                match (cmd.get("documents"@), str_at(cmd, "$db"@), str_at(cmd, "insert"@)) {
                    (Some(JsonTree::Array(_)), Some(db), Some(coll)) => Some(
                        captured(Op::Insert, ns, db, coll, ts, cmd),
                    ),
                    _ => None,
                }
            } else if op == "update"@ {
                match cmd.get("u"@) {
                    Some(JsonTree::Object(_)) => Some(captured_by_ns(Op::Update, ns, ts, cmd)),
                    _ => None,
                }
            } else if op == "remove"@ {
                match cmd.get("q"@) {
                    Some(JsonTree::Object(_)) => Some(captured_by_ns(Op::Delete, ns, ts, cmd)),
                    _ => None,
                }
            } else if op == "command"@ {
                if str_at(cmd, "aggregate"@).is_some() {
                    match cmd.get("pipeline"@) {
                        Some(JsonTree::Array(_)) => Some(
                            captured_by_ns(Op::Aggregate, ns, ts, cmd),
                        ),
                        _ => None,
                    }
                } else {
                    Some(captured_by_ns(Op::Command, ns, ts, cmd))
                }
            } else if op == "aggregate"@ {
                match cmd.get("pipeline"@) {
                    Some(JsonTree::Array(_)) => Some(captured_by_ns(Op::Aggregate, ns, ts, cmd)),
                    _ => None,
                }
            } else if op == "getmore"@ {
                Some(captured_by_ns(Op::GetMore, ns, ts, cmd))
            } else if op == "findAndModify"@ {
                Some(captured_by_ns(Op::FindAndModify, ns, ts, cmd))
            } else {
                Some(blank_row())
            }
        },
        _ => None,
    }
}

/// A record of an insert or an aggregate that the profiler gives holds what its
/// kind needs: its documents, or its pipeline.
pub proof fn lemma_profiled_well_shaped(entry: JsonTree, ts: i64)
    requires
        profiled(entry, ts).is_some(),
        profiled(entry, ts).unwrap().op == Op::Insert || profiled(entry, ts).unwrap().op
            == Op::Aggregate,
    ensures
        well_shaped(profiled(entry, ts).unwrap()),
{
}

/// The text of the field `key` of `j`, where it holds one.
fn read_str<'a>(j: &'a Json, key: &str) -> (r: Option<&'a str>)
    ensures
        match r {
            Some(s) => str_at(j@, key@) == Some(s@),
            None => str_at(j@, key@).is_none(),
        },
{
    match j.get(key) {
        Some(v) => v.as_str(),
        None => None,
    }
}

/// Whether the field `key` of `j` holds an array.
fn holds_array(j: &Json, key: &str) -> (r: bool)
    ensures
        r == match j@.get(key@) {
            Some(JsonTree::Array(_)) => true,
            _ => false,
        },
{
    match j.get(key) {
        Some(v) => v.as_array().is_some(),
        None => false,
    }
}

/// Whether the field `key` of `j` holds an object.
fn holds_object(j: &Json, key: &str) -> (r: bool)
    ensures
        r == match j@.get(key@) {
            Some(JsonTree::Object(_)) => true,
            _ => false,
        },
{
    match j.get(key) {
        Some(Json::Object(_)) => true,
        _ => false,
    }
}

/// A record of kind `op` for the payload `cmd`.
fn make_row(op: Op, ns: &str, db: String, coll: String, ts: i64, cmd: &Json) -> (row: OpRow)
    ensures
        row@ == captured(op, ns@, db@, coll@, ts, cmd@),
{
    OpRow {
        id: fingerprint(cmd),
        op,
        db,
        coll,
        ns: ns.to_string(),
        ts,
        cmd: cmd.copy(),
        args: Json::empty_object(),
        key: String::new(),
        hash: String::new(),
    }
}

/// A record of kind `op` for the payload `cmd` on the namespace `ns`.
fn make_row_by_ns(op: Op, ns: &str, ts: i64, cmd: &Json) -> (row: OpRow)
    ensures
        row@ == captured_by_ns(op, ns@, ts, cmd@),
{
    let (db, coll) = get_db_coll(ns);
    make_row(op, ns, db, coll, ts, cmd)
}

/// The record that the profiler's entry `entry`, taken at the millisecond `ts`,
/// gives.
pub fn row_from_profile(entry: &Json, ts: i64) -> (r: Option<OpRow>)
    ensures
        match r {
            Some(row) => profiled(entry@, ts) == Some(row@),
            None => profiled(entry@, ts).is_none(),
        },
{
    let ns = match read_str(entry, "ns") {
        Some(ns) => ns,
        None => {
            return None;
        },
    };
    let op = match read_str(entry, "op") {
        Some(op) => op,
        None => {
            return None;
        },
    };
    let cmd = match entry.get("command") {
        Some(cmd) => cmd,
        None => {
            return None;
        },
    };
    let is_doc = match cmd {
        Json::Object(_) => true,
        _ => false,
    };
    if !is_doc {
        return None;
    }
    if str_contains(ns, "system.profile") {
        return None;
    }
    if str_eq(op, "query") {
        if read_str(entry, "queryHash").is_none() {
            return None;
        }
        match (read_str(cmd, "$db"), read_str(cmd, "find")) {
            (Some(db), Some(coll)) => Some(
                make_row(Op::Find, ns, db.to_string(), coll.to_string(), ts, cmd),
            ),
            _ => None,
        }
    } else if str_eq(op, "insert") {
        if !holds_array(cmd, "documents") {
            return None;
        }
        match (read_str(cmd, "$db"), read_str(cmd, "insert")) {
            (Some(db), Some(coll)) => Some(
                make_row(Op::Insert, ns, db.to_string(), coll.to_string(), ts, cmd),
            ),
            _ => None,
        }
    } else if str_eq(op, "update") {
        if holds_object(cmd, "u") {
            Some(make_row_by_ns(Op::Update, ns, ts, cmd))
        } else {
            None
        }
    } else if str_eq(op, "remove") {
        if holds_object(cmd, "q") {
            Some(make_row_by_ns(Op::Delete, ns, ts, cmd))
        } else {
            None
        }
    } else if str_eq(op, "command") {
        if read_str(cmd, "aggregate").is_some() {
            if holds_array(cmd, "pipeline") {
                Some(make_row_by_ns(Op::Aggregate, ns, ts, cmd))
            } else {
                None
            }
        } else {
            Some(make_row_by_ns(Op::Command, ns, ts, cmd))
        }
    } else if str_eq(op, "aggregate") {
        if holds_array(cmd, "pipeline") {
            Some(make_row_by_ns(Op::Aggregate, ns, ts, cmd))
        } else {
            None
        }
    } else if str_eq(op, "getmore") {
        Some(make_row_by_ns(Op::GetMore, ns, ts, cmd))
    } else if str_eq(op, "findAndModify") {
        Some(make_row_by_ns(Op::FindAndModify, ns, ts, cmd))
    } else {
        Some(
            OpRow {
                id: String::new(),
                op: Op::Noop,
                db: String::new(),
                coll: String::new(),
                ns: String::new(),
                ts: 0,
                cmd: Json::Null,
                args: Json::empty_object(),
                key: String::new(),
                hash: String::new(),
            },
        )
    }
}

} // verus!
