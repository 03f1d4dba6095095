//! What is made of a record when it is loaded: the payload without the fields of
//! a session, the document for the driver, and the key of the query's shape.

use crate::json::{lemma_tree_fields, lemma_trees, tree_fields, Json, JsonTree};
use crate::op_row::{tree_at, Op, OpRow, OpRowView};
use crate::strings::{join, joined, sort_lines, sorted_texts};
use vstd::prelude::*;

verus! {

/// The fields of a payload that belong to the session or the cluster that it was
/// captured on.
pub open spec fn session_fields() -> Seq<Seq<char>> {
    seq!["lsid"@, "$clusterTime"@, "$db"@]
}

/// The path of the field `name` under the path `prefix`.
pub open spec fn sub_path(prefix: Seq<char>, name: Seq<char>) -> Seq<char> {
    if prefix.len() == 0 {
        name
    } else {
        prefix + "."@ + name
    }
}

/// The paths of the fields at and below `tree`, which stands at `path`: an object
/// with fields gives the paths of its fields, any other value its own path.
pub open spec fn paths_of(path: Seq<char>, tree: JsonTree) -> Seq<Seq<char>>
    decreases tree, 1nat,
{
    match tree {
        JsonTree::Object(fields) => if fields.len() > 0 {
            field_paths(path, fields)
        } else {
            seq![path]
        },
        _ => seq![path],
    }
}

/// The paths of the fields of an object that stands at `path`, in their order.
pub open spec fn field_paths(path: Seq<char>, fields: Seq<(Seq<char>, JsonTree)>) -> Seq<
    Seq<char>,
>
    decreases fields, 0nat,
{
    if fields.len() == 0 {
        Seq::empty()
    } else {
        field_paths(path, fields.drop_last()) + paths_of(
            sub_path(path, fields.last().0),
            fields.last().1,
        )
    }
}

/// The value of the field `q` of the first item of the list `list` of a payload,
/// or of the payload itself where it has no such list with an item.
pub open spec fn first_q(cmd: JsonTree, list: Seq<char>) -> JsonTree {
    match cmd.get(list) {
        Some(JsonTree::Array(items)) => if items.len() > 0 {
            tree_at(items[0], "q"@)
        } else {
            tree_at(cmd, "q"@)
        },
        _ => tree_at(cmd, "q"@),
    }
}

/// The predicate by which an operation picks its documents.
pub open spec fn predicate(op: Op, cmd: JsonTree) -> JsonTree {
    match op {
        Op::Find => tree_at(cmd, "filter"@),
        Op::Count => tree_at(cmd, "query"@),
        Op::FindAndModify => tree_at(cmd, "query"@),
        Op::Update => first_q(cmd, "updates"@),
        Op::Delete => first_q(cmd, "deletes"@),
        _ => JsonTree::Null,
    }
}

/// The key of an operation's shape: the tag of its kind, a colon, and the paths of
/// the fields of its predicate in dictionary order with commas between them.
pub open spec fn shape_key(op: Op, cmd: JsonTree) -> Seq<char> {
    op.tag() + ":"@ + joined(sorted_texts(paths_of(Seq::empty(), predicate(op, cmd))), ","@)
}

/// The namespace of a record: as it is given, or made of database and collection
/// where it is empty and both of them are not.
pub open spec fn filled_ns(row: OpRowView) -> Seq<char> {
    if row.ns.len() == 0 && row.db.len() > 0 && row.coll.len() > 0 {
        row.db + "."@ + row.coll
    } else {
        row.ns
    }
}

/// A record as it is served: the payload without the session's fields and without
/// the fields `ignore`, the document for the driver with the command's name first,
/// and the key of the shape.
pub open spec fn normalized(row: OpRowView, ignore: Seq<Seq<char>>) -> OpRowView {
    let cmd = row.cmd.without(session_fields() + ignore);
    OpRowView {
        cmd,
        args: match row.op.command_key() {
            Some(k) => cmd.with_first(k),
            None => cmd,
        },
        key: shape_key(row.op, cmd),
        ns: filled_ns(row),
        ..row
    }
}

/// Whether the namespace of a record fits its database and collection: where
/// all three are given, the namespace is the database, a dot, the collection.
pub open spec fn ns_consistent(row: OpRowView) -> bool {
    row.ns.len() > 0 && row.db.len() > 0 && row.coll.len() > 0 ==> row.ns == row.db + "."@
        + row.coll
}

/// Whether every item of `items` is an object with the fields `q` and `u`.
pub open spec fn all_updates(items: Seq<JsonTree>) -> bool {
    forall|i: int| 0 <= i < items.len() ==> (#[trigger] items[i]).has("q"@) && items[i].has("u"@)
}

/// Whether the payload of a record holds what its kind needs: an insert its
/// documents, an update its list of changes or one change of its own, an
/// aggregate its pipeline, a get-more the command that it continues.
pub open spec fn well_shaped(row: OpRowView) -> bool {
    match row.op {
        Op::Insert => row.cmd.get("documents"@) is Some && row.cmd.get("documents"@).unwrap()
            is Array,
        Op::Update => match row.cmd.get("updates"@) {
            Some(JsonTree::Array(items)) => all_updates(items),
            _ => row.cmd.has("q"@) && row.cmd.has("u"@),
        },
        Op::Aggregate => row.cmd.get("pipeline"@) is Some && row.cmd.get("pipeline"@).unwrap()
            is Array,
        Op::GetMore => row.cmd.has("originatingCommand"@),
        _ => true,
    }
}

/// A record that is served has a namespace that fits its database and
/// collection, where the record as it was written had one or had none.
pub proof fn lemma_normalized_ns(row: OpRowView, ignore: Seq<Seq<char>>)
    requires
        ns_consistent(row),
    ensures
        ns_consistent(normalized(row, ignore)),
{
}

/// The path of the field `name` under the path `prefix`.
fn make_sub_path(prefix: &str, name: &str) -> (path: String)
    ensures
        path@ == sub_path(prefix@, name@),
{
    if prefix.unicode_len() == 0 {
        name.to_string()
    } else {
        let mut path = prefix.to_string();
        path.append(".");
        path.append(name);
        path
    }
}

/// Adds the paths of the fields at and below `j`, which stands at `path`, to `out`.
fn collect_paths(path: &str, j: &Json, out: &mut Vec<String>)
    ensures
        final(out).deep_view() == old(out).deep_view() + paths_of(path@, j@),
    decreases j, 1nat,
{
    match j {
        Json::Object(fields) => {
            if fields.len() > 0 {
                collect_field_paths(path, fields, out);
            } else {
                out.push(path.to_string());
            }
        },
        _ => {
            out.push(path.to_string());
        },
    }
}

/// Adds the paths of the fields `fields` of an object that stands at `path` to `out`.
fn collect_field_paths(path: &str, fields: &Vec<(String, Json)>, out: &mut Vec<String>)
    ensures
        final(out).deep_view() == old(out).deep_view() + field_paths(
            path@,
            tree_fields(fields@),
        ),
    decreases fields, 0nat,
{
    proof {
        lemma_tree_fields(fields@);
    }
    let ghost all = tree_fields(fields@);
    let mut i: usize = 0;
    while i < fields.len()
        invariant
            i <= fields.len(),
            all == tree_fields(fields@),
            all.len() == fields@.len(),
            forall|k: int|
                0 <= k < fields@.len() ==> #[trigger] all[k] == (fields@[k].0@, fields@[k].1@),
            out.deep_view() == old(out).deep_view() + field_paths(path@, all.take(i as int)),
        decreases fields.len() - i,
    {
        let sub = make_sub_path(path, fields[i].0.as_str());
        collect_paths(sub.as_str(), &fields[i].1, out);
        proof {
            let next = all.take(i as int + 1);
            assert(next.drop_last() =~= all.take(i as int));
        }
        i += 1;
    }
    assert(all.take(fields.len() as int) =~= all);
}

/// The value of the field `key` of `j`, `null` where there is none.
fn field_or_null<'a>(j: &'a Json, key: &str, null: &'a Json) -> (r: &'a Json)
    requires
        null@ == JsonTree::Null,
    ensures
        r@ == tree_at(j@, key@),
{
    match j.get(key) {
        Some(v) => v,
        None => null,
    }
}

/// The predicate of an update or a delete.
fn find_first_q<'a>(cmd: &'a Json, list: &str, null: &'a Json) -> (r: &'a Json)
    requires
        null@ == JsonTree::Null,
    ensures
        r@ == first_q(cmd@, list@),
{
    match cmd.get(list) {
        Some(v) => match v.as_array() {
            Some(items) => {
                proof {
                    lemma_trees(items@);
                }
                if items.len() > 0 {
                    field_or_null(&items[0], "q", null)
                } else {
                    field_or_null(cmd, "q", null)
                }
            },
            None => field_or_null(cmd, "q", null),
        },
        None => field_or_null(cmd, "q", null),
    }
}

/// The key of the shape of an operation of kind `op` with the payload `cmd`.
pub fn make_shape_key(op: Op, cmd: &Json) -> (key: String)
    ensures
        key@ == shape_key(op, cmd@),
{
    let null = Json::Null;
    let pred = match op {
        Op::Find => field_or_null(cmd, "filter", &null),
        Op::Count => field_or_null(cmd, "query", &null),
        Op::FindAndModify => field_or_null(cmd, "query", &null),
        Op::Update => find_first_q(cmd, "updates", &null),
        Op::Delete => find_first_q(cmd, "deletes", &null),
        _ => &null,
    };
    let mut paths: Vec<String> = Vec::new();
    collect_paths("", pred, &mut paths);
    proof {
        reveal_strlit("");
        assert(""@ =~= Seq::empty());
    }
    let sorted = sort_lines(&paths);
    let mut key = op.name().to_string();
    key.append(":");
    let list = join(&sorted, ",");
    key.append(list.as_str());
    key
}

impl OpRow {
    /// The record as it is served to a worker.
    pub fn normalize(self, ignore_field: &Vec<String>) -> (row: OpRow)
        ensures
            row@ == normalized(self@, ignore_field.deep_view()),
    {
        let mut drop: Vec<String> = Vec::new();
        drop.push("lsid".to_string());
        drop.push("$clusterTime".to_string());
        drop.push("$db".to_string());
        let mut i: usize = 0;
        while i < ignore_field.len()
            invariant
                i <= ignore_field.len(),
                drop.deep_view() == session_fields() + ignore_field.deep_view().take(i as int),
            decreases ignore_field.len() - i,
        {
            let ghost before = drop.deep_view();
            drop.push(ignore_field[i].clone());
            assert(drop.deep_view() =~= before.push(ignore_field[i as int]@));
            i += 1;
        }
        assert(ignore_field.deep_view().take(ignore_field.len() as int)
            =~= ignore_field.deep_view());
        let cmd = self.cmd.without(&drop);
        let args = match self.op.command_name() {
            Some(k) => cmd.with_first(k),
            None => cmd.copy(),
        };
        let key = make_shape_key(self.op, &cmd);
        let ns = if self.ns.as_str().unicode_len() == 0 && self.db.as_str().unicode_len() > 0
            && self.coll.as_str().unicode_len() > 0 {
            let mut ns = self.db.clone();
            ns.append(".");
            ns.append(self.coll.as_str());
            ns
        } else {
            self.ns
        };
        OpRow {
            id: self.id,
            op: self.op,
            db: self.db,
            coll: self.coll,
            ns,
            ts: self.ts,
            cmd,
            args,
            key,
            hash: self.hash,
        }
    }
    /// Whether the namespace of the record fits its database and collection.
    pub fn has_consistent_ns(&self) -> (r: bool)
        ensures
            r == ns_consistent(self@),
    {
        if self.ns.as_str().unicode_len() > 0 && self.db.as_str().unicode_len() > 0
            && self.coll.as_str().unicode_len() > 0 {
            let mut ns = self.db.clone();
            ns.append(".");
            ns.append(self.coll.as_str());
            ns == self.ns
        } else {
            true
        }
    }

    /// Whether the payload of the record holds what its kind needs.
    pub fn is_well_shaped(&self) -> (r: bool)
        ensures
            r == well_shaped(self@),
    {
        match self.op {
            Op::Insert => match self.cmd.get("documents") {
                Some(d) => d.as_array().is_some(),
                None => false,
            },
            Op::Update => {
                let listed = match self.cmd.get("updates") {
                    Some(u) => u.as_array(),
                    None => None,
                };
                match listed {
                    Some(items) => {
                        proof {
                            lemma_trees(items@);
                        }
                        let ghost all = crate::json::trees(items@);
                        let mut i: usize = 0;
                        while i < items.len()
                            invariant
                                i <= items.len(),
                                self.op == Op::Update,
                                self@.cmd.get("updates"@) == Some(JsonTree::Array(all)),
                                all == crate::json::trees(items@),
                                all.len() == items@.len(),
                                forall|k: int|
                                    0 <= k < items@.len() ==> #[trigger] all[k] == items@[k]@,
                                forall|k: int|
                                    0 <= k < i ==> (#[trigger] all[k]).has("q"@) && all[k].has(
                                        "u"@,
                                    ),
                            decreases items.len() - i,
                        {
                            if !(items[i].has("q") && items[i].has("u")) {
                                assert(!(all[i as int].has("q"@) && all[i as int].has("u"@)));
                                return false;
                            }
                            i += 1;
                        }
                        true
                    },
                    None => self.cmd.has("q") && self.cmd.has("u"),
                }
            },
            Op::Aggregate => match self.cmd.get("pipeline") {
                Some(p) => p.as_array().is_some(),
                None => false,
            },
            Op::GetMore => self.cmd.has("originatingCommand"),
            _ => true,
        }
    }
}

} // verus!
