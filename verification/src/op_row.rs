//! One replayable operation: its kinds, its fields, and its form as a JSON object.

use crate::json::{find_field, Json, JsonTree};
use crate::strings::str_eq;
use crate::text::{json_read, json_text};
use vstd::prelude::*;

verus! {

/// The kind of an operation.
#[derive(Debug, Clone, Copy, PartialEq, Eq, Structural)]
pub enum Op {
    /// An operation that does nothing; its tag is `None`.
    Noop,
    Find,
    Count,
    Insert,
    Update,
    Delete,
    Command,
    Aggregate,
    GetMore,
    FindAndModify,
}

impl Op {
    /// The tag under which the kind is written in a log.
    pub open spec fn tag(self) -> Seq<char> {
        match self {
            Op::Noop => "None"@,
            Op::Find => "Find"@,
            Op::Count => "Count"@,
            Op::Insert => "Insert"@,
            Op::Update => "Update"@,
            Op::Delete => "Delete"@,
            Op::Command => "Command"@,
            Op::Aggregate => "Aggregate"@,
            Op::GetMore => "GetMore"@,
            Op::FindAndModify => "FindAndModify"@,
        }
    }

    /// The kind that a tag names, if it names one.
    pub open spec fn named(tag: Seq<char>) -> Option<Op> {
        if tag == "None"@ {
            Some(Op::Noop)
        } else if tag == "Find"@ {
            Some(Op::Find)
        } else if tag == "Count"@ {
            Some(Op::Count)
        } else if tag == "Insert"@ {
            Some(Op::Insert)
        } else if tag == "Update"@ {
            Some(Op::Update)
        } else if tag == "Delete"@ {
            Some(Op::Delete)
        } else if tag == "Command"@ {
            Some(Op::Command)
        } else if tag == "Aggregate"@ {
            Some(Op::Aggregate)
        } else if tag == "GetMore"@ {
            Some(Op::GetMore)
        } else if tag == "FindAndModify"@ {
            Some(Op::FindAndModify)
        } else {
            None
        }
    }

    /// The field of a command payload that names the command of this kind.
    pub open spec fn command_key(self) -> Option<Seq<char>> {
        match self {
            Op::Find => Some("find"@),
            Op::Count => Some("count"@),
            Op::Insert => Some("insert"@),
            Op::Update => Some("update"@),
            Op::Delete => Some("delete"@),
            Op::Aggregate => Some("aggregate"@),
            Op::GetMore => Some("getMore"@),
            Op::FindAndModify => Some("findAndModify"@),
            Op::Noop | Op::Command => None,
        }
    }

    /// Whether an operation of this kind changes the database.
    pub open spec fn writes(self) -> bool {
        self == Op::Insert || self == Op::Update || self == Op::Delete || self
            == Op::FindAndModify
    }

    /// The tag of the kind.
    pub fn name(self) -> (s: &'static str)
        ensures
            s@ == self.tag(),
    {
        match self {
            Op::Noop => "None",
            Op::Find => "Find",
            Op::Count => "Count",
            Op::Insert => "Insert",
            Op::Update => "Update",
            Op::Delete => "Delete",
            Op::Command => "Command",
            Op::Aggregate => "Aggregate",
            Op::GetMore => "GetMore",
            Op::FindAndModify => "FindAndModify",
        }
    }

    /// The kind that `tag` names.
    pub fn from_name(tag: &str) -> (r: Option<Op>)
        ensures
            r == Op::named(tag@),
    {
        if str_eq(tag, "None") {
            Some(Op::Noop)
        } else if str_eq(tag, "Find") {
            Some(Op::Find)
        } else if str_eq(tag, "Count") {
            Some(Op::Count)
        } else if str_eq(tag, "Insert") {
            Some(Op::Insert)
        } else if str_eq(tag, "Update") {
            Some(Op::Update)
        } else if str_eq(tag, "Delete") {
            Some(Op::Delete)
        } else if str_eq(tag, "Command") {
            Some(Op::Command)
        } else if str_eq(tag, "Aggregate") {
            Some(Op::Aggregate)
        } else if str_eq(tag, "GetMore") {
            Some(Op::GetMore)
        } else if str_eq(tag, "FindAndModify") {
            Some(Op::FindAndModify)
        } else {
            None
        }
    }

    /// The name of the command field of this kind.
    pub fn command_name(self) -> (r: Option<&'static str>)
        ensures
            match r {
                Some(s) => self.command_key() == Some(s@),
                None => self.command_key().is_none(),
            },
    {
        match self {
            Op::Find => Some("find"),
            Op::Count => Some("count"),
            Op::Insert => Some("insert"),
            Op::Update => Some("update"),
            Op::Delete => Some("delete"),
            Op::Aggregate => Some("aggregate"),
            Op::GetMore => Some("getMore"),
            Op::FindAndModify => Some("findAndModify"),
            Op::Noop => None,
            Op::Command => None,
        }
    }

    /// Whether an operation of this kind changes the database.
    pub fn is_write(self) -> (r: bool)
        ensures
            r == self.writes(),
    {
        match self {
            Op::Insert | Op::Update | Op::Delete | Op::FindAndModify => true,
            _ => false,
        }
    }
}

/// The tag of a kind names that kind, and no two kinds share a tag.
pub proof fn lemma_tag_names_kind(op: Op)
    ensures
        Op::named(op.tag()) == Some(op),
{
    reveal_strlit("None");
    reveal_strlit("Find");
    reveal_strlit("Count");
    reveal_strlit("Insert");
    reveal_strlit("Update");
    reveal_strlit("Delete");
    reveal_strlit("Command");
    reveal_strlit("Aggregate");
    reveal_strlit("GetMore");
    reveal_strlit("FindAndModify");
    assert("Find"@.len() == 4);
    assert("Count"@.len() == 5);
    assert("Delete"@.len() == 6);
    assert("Aggregate"@.len() == 9);
    assert("GetMore"@.len() == 7);
    assert("None"@[0] == 'N');
    assert("Insert"@[0] == 'I');
    assert("Update"@[0] == 'U');
    assert("Command"@[0] == 'C');
}

/// One operation record.
#[derive(Debug, PartialEq)]
pub struct OpRow {
    /// Fingerprint of the command payload at capture time.
    pub id: String,
    pub op: Op,
    /// Target database.
    pub db: String,
    /// Target collection.
    pub coll: String,
    /// `db.coll`.
    pub ns: String,
    /// Capture time in milliseconds.
    pub ts: i64,
    /// The command payload.
    pub cmd: Json,
    /// The document that is handed to the driver.
    pub args: Json,
    /// The key under which the operation's cost is aggregated.
    pub key: String,
    pub hash: String,
}

/// The model of an [`OpRow`].
pub struct OpRowView {
    pub id: Seq<char>,
    pub op: Op,
    pub db: Seq<char>,
    pub coll: Seq<char>,
    pub ns: Seq<char>,
    pub ts: i64,
    pub cmd: JsonTree,
    pub args: JsonTree,
    pub key: Seq<char>,
    pub hash: Seq<char>,
}

impl View for OpRow {
    type V = OpRowView;

    open spec fn view(&self) -> OpRowView {
        OpRowView {
            id: self.id@,
            op: self.op,
            db: self.db@,
            coll: self.coll@,
            ns: self.ns@,
            ts: self.ts,
            cmd: self.cmd@,
            args: self.args@,
            key: self.key@,
            hash: self.hash@,
        }
    }
}

/// The text of the field `key` of an object: empty where the field is absent,
/// nothing where it holds anything but a string.
pub open spec fn text_at(tree: JsonTree, key: Seq<char>) -> Option<Seq<char>> {
    match tree.get(key) {
        None => Some(Seq::empty()),
        Some(JsonTree::Str(s)) => Some(s),
        Some(_) => None,
    }
}

/// The integer of the field `key` of an object: zero where the field is absent,
/// nothing where it holds anything but an integer that fits `i64`.
pub open spec fn int_at(tree: JsonTree, key: Seq<char>) -> Option<i64> {
    match tree.get(key) {
        None => Some(0i64),
        Some(JsonTree::Int(n)) => Some(n),
        Some(_) => None,
    }
}

/// The kind in the field `op` of an object: `None` where the field is absent,
/// nothing where it holds anything but the tag of a kind.
pub open spec fn op_at(tree: JsonTree) -> Option<Op> {
    match tree.get("op"@) {
        None => Some(Op::Noop),
        Some(JsonTree::Str(s)) => Op::named(s),
        Some(_) => None,
    }
}

/// The value of the field `key` of an object, `null` where the field is absent.
pub open spec fn tree_at(tree: JsonTree, key: Seq<char>) -> JsonTree {
    match tree.get(key) {
        Some(v) => v,
        None => JsonTree::Null,
    }
}

/// The record that a JSON object stands for.
///
/// Each field may be absent and then has its default. A tree that is no object, or
/// that holds a field of the wrong type or an unknown kind, stands for no record.
pub open spec fn decoded(tree: JsonTree) -> Option<OpRowView> {
    if tree is Object && text_at(tree, "id"@).is_some() && op_at(tree).is_some() && text_at(
        tree,
        "db"@,
    ).is_some() && text_at(tree, "coll"@).is_some() && text_at(tree, "ns"@).is_some() && int_at(
        tree,
        "ts"@,
    ).is_some() && text_at(tree, "key"@).is_some() && text_at(tree, "hash"@).is_some() {
        Some(
            OpRowView {
                id: text_at(tree, "id"@).unwrap(),
                op: op_at(tree).unwrap(),
                db: text_at(tree, "db"@).unwrap(),
                coll: text_at(tree, "coll"@).unwrap(),
                ns: text_at(tree, "ns"@).unwrap(),
                ts: int_at(tree, "ts"@).unwrap(),
                cmd: tree_at(tree, "cmd"@),
                args: tree_at(tree, "args"@),
                key: text_at(tree, "key"@).unwrap(),
                hash: text_at(tree, "hash"@).unwrap(),
            },
        )
    } else {
        None
    }
}

/// The JSON object that stands for a record: its ten fields in a fixed order.
pub open spec fn encoded(row: OpRowView) -> JsonTree {
    JsonTree::Object(
        seq![
            ("id"@, JsonTree::Str(row.id)),
            ("op"@, JsonTree::Str(row.op.tag())),
            ("db"@, JsonTree::Str(row.db)),
            ("coll"@, JsonTree::Str(row.coll)),
            ("ns"@, JsonTree::Str(row.ns)),
            ("ts"@, JsonTree::Int(row.ts)),
            ("cmd"@, row.cmd),
            ("args"@, row.args),
            ("key"@, JsonTree::Str(row.key)),
            ("hash"@, JsonTree::Str(row.hash)),
        ],
    )
}

/// The record that a line of a log stands for, if it stands for one.
pub open spec fn row_read(line: Seq<char>) -> Option<OpRowView> {
    match json_read(line) {
        Some(tree) => decoded(tree),
        None => None,
    }
}

/// The line that is written for a record, without the line break.
pub open spec fn row_written(row: OpRowView) -> Seq<char> {
    json_text(encoded(row))
}

/// Reads the text field `key` of `j`.
fn read_text(j: &Json, key: &str) -> (r: Option<String>)
    ensures
        match r {
            Some(s) => text_at(j@, key@) == Some(s@),
            None => text_at(j@, key@).is_none(),
        },
{
    match j.get(key) {
        None => Some(String::new()),
        Some(v) => match v.as_str() {
            Some(s) => Some(s.to_string()),
            None => None,
        },
    }
}

/// Reads the integer field `key` of `j`.
fn read_int(j: &Json, key: &str) -> (r: Option<i64>)
    ensures
        r == int_at(j@, key@),
{
    match j.get(key) {
        None => Some(0),
        Some(v) => v.as_i64(),
    }
}

/// Reads the kind of `j`.
fn read_op(j: &Json) -> (r: Option<Op>)
    ensures
        r == op_at(j@),
{
    match j.get("op") {
        None => Some(Op::Noop),
        Some(v) => match v.as_str() {
            Some(s) => Op::from_name(s),
            None => None,
        },
    }
}

/// Reads the field `key` of `j` as it is.
fn read_tree(j: &Json, key: &str) -> (r: Json)
    ensures
        r@ == tree_at(j@, key@),
{
    match j.get(key) {
        Some(v) => v.copy(),
        None => Json::Null,
    }
}

impl OpRow {
    /// A copy of the record.
    pub fn copy(&self) -> (r: OpRow)
        ensures
            r@ == self@,
    {
        OpRow {
            id: self.id.clone(),
            op: self.op,
            db: self.db.clone(),
            coll: self.coll.clone(),
            ns: self.ns.clone(),
            ts: self.ts,
            cmd: self.cmd.copy(),
            args: self.args.copy(),
            key: self.key.clone(),
            hash: self.hash.clone(),
        }
    }

    /// The record that the JSON object `j` stands for.
    pub fn from_json(j: &Json) -> (r: Option<OpRow>)
        ensures
            match r {
                Some(row) => decoded(j@) == Some(row@),
                None => decoded(j@).is_none(),
            },
    {
        let is_object = match j {
            Json::Object(_) => true,
            _ => false,
        };
        if !is_object {
            return None;
        }
        let id = match read_text(j, "id") {
            Some(s) => s,
            None => {
                return None;
            },
        };
        let op = match read_op(j) {
            Some(op) => op,
            None => {
                return None;
            },
        };
        let db = match read_text(j, "db") {
            Some(s) => s,
            None => {
                return None;
            },
        };
        let coll = match read_text(j, "coll") {
            Some(s) => s,
            None => {
                return None;
            },
        };
        let ns = match read_text(j, "ns") {
            Some(s) => s,
            None => {
                return None;
            },
        };
        let ts = match read_int(j, "ts") {
            Some(n) => n,
            None => {
                return None;
            },
        };
        let key = match read_text(j, "key") {
            Some(s) => s,
            None => {
                return None;
            },
        };
        let hash = match read_text(j, "hash") {
            Some(s) => s,
            None => {
                return None;
            },
        };
        let cmd = read_tree(j, "cmd");
        let args = read_tree(j, "args");
        Some(OpRow { id, op, db, coll, ns, ts, cmd, args, key, hash })
    }

    /// The JSON object that stands for the record.
    pub fn to_json(&self) -> (j: Json)
        ensures
            j@ == encoded(self@),
    {
        let mut fields: Vec<(String, Json)> = Vec::new();
        fields.push(("id".to_string(), Json::Str(self.id.clone())));
        fields.push(("op".to_string(), Json::Str(self.op.name().to_string())));
        fields.push(("db".to_string(), Json::Str(self.db.clone())));
        fields.push(("coll".to_string(), Json::Str(self.coll.clone())));
        fields.push(("ns".to_string(), Json::Str(self.ns.clone())));
        fields.push(("ts".to_string(), Json::Int(self.ts)));
        fields.push(("cmd".to_string(), self.cmd.copy()));
        fields.push(("args".to_string(), self.args.copy()));
        fields.push(("key".to_string(), Json::Str(self.key.clone())));
        fields.push(("hash".to_string(), Json::Str(self.hash.clone())));
        proof {
            crate::json::lemma_tree_fields(fields@);
            assert(crate::json::tree_fields(fields@) =~= encoded(self@)->Object_0);
        }
        Json::Object(fields)
    }

    /// Reads a record from one line of a log.
    pub fn parse_line(line: &str) -> (r: Option<OpRow>)
        ensures
            match r {
                Some(row) => row_read(line@) == Some(row@),
                None => row_read(line@).is_none(),
            },
    {
        match Json::parse(line) {
            Some(j) => OpRow::from_json(&j),
            None => None,
        }
    }

    /// Writes the record as one line of a log, without the line break.
    pub fn to_line(&self) -> (line: String)
        ensures
            line@ == row_written(self@),
    {
        self.to_json().to_text()
    }
}

/// A record that is written as a JSON object is read back from it unchanged.
pub proof fn lemma_decode_encode(row: OpRowView)
    ensures
        decoded(encoded(row)) == Some(row),
{
    let fields = encoded(row)->Object_0;
    reveal_strlit("id");
    reveal_strlit("op");
    reveal_strlit("db");
    reveal_strlit("coll");
    reveal_strlit("ns");
    reveal_strlit("ts");
    reveal_strlit("cmd");
    reveal_strlit("args");
    reveal_strlit("key");
    reveal_strlit("hash");
    lemma_tag_names_kind(row.op);
    assert("id"@.len() == 2 && "id"@[0] == 'i');
    assert("op"@.len() == 2 && "op"@[0] == 'o');
    assert("db"@.len() == 2 && "db"@[0] == 'd');
    assert("ns"@.len() == 2 && "ns"@[0] == 'n');
    assert("cmd"@.len() == 3 && "cmd"@[0] == 'c');
    assert("key"@.len() == 3 && "key"@[0] == 'k');
    assert("coll"@.len() == 4 && "coll"@[0] == 'c');
    assert("args"@.len() == 4 && "args"@[0] == 'a');
    assert("ts"@.len() == 2 && "ts"@[0] == 't');
    assert("hash"@.len() == 4 && "hash"@[0] == 'h');
    assert(fields[0].0 == "id"@);
    assert(fields[1].0 == "op"@);
    assert(fields[2].0 == "db"@);
    assert(fields[3].0 == "coll"@);
    assert(fields[4].0 == "ns"@);
    assert(fields[5].0 == "ts"@);
    assert(fields[6].0 == "cmd"@);
    assert(fields[7].0 == "args"@);
    assert(fields[8].0 == "key"@);
    assert(fields[9].0 == "hash"@);
    lemma_find_at(fields, 0);
    lemma_find_at(fields, 1);
    lemma_find_at(fields, 2);
    lemma_find_at(fields, 3);
    lemma_find_at(fields, 4);
    lemma_find_at(fields, 5);
    lemma_find_at(fields, 6);
    lemma_find_at(fields, 7);
    lemma_find_at(fields, 8);
    lemma_find_at(fields, 9);
}

/// Where no earlier field has the name of the field at `i`, that field is the one
/// found under its name.
pub proof fn lemma_find_at(fields: Seq<(Seq<char>, JsonTree)>, i: int)
    requires
        0 <= i < fields.len(),
        forall|k: int| 0 <= k < i ==> (#[trigger] fields[k]).0 != fields[i].0,
    ensures
        find_field(fields, fields[i].0) == Some(fields[i].1),
    decreases i,
{
    if i > 0 {
        let rest = fields.skip(1);
        assert forall|k: int| 0 <= k < i - 1 implies (#[trigger] rest[k]).0 != rest[i - 1].0 by {
        }
        lemma_find_at(rest, i - 1);
    }
}

} // verus!
