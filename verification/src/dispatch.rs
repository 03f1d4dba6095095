//! Which calls of the database driver an operation record turns into.

use crate::json::{lemma_trees, Json, JsonTree};
use crate::op_row::{Op, OpRow, OpRowView};
use crate::shape::session_fields;
use vstd::prelude::*;

verus! {

/// Whether a run may change the database.
#[derive(Debug, Clone, Copy, PartialEq, Eq, Structural)]
pub enum OpRunMode {
    Readonly,
    ReadWrite,
}

/// A method of the database driver.
#[derive(Debug, Clone, Copy, PartialEq, Eq, Structural)]
pub enum Verb {
    /// `run_command` on the database, with the document.
    RunCommand,
    /// `run_cursor_command` on the database, with the document.
    RunCursorCommand,
    /// `aggregate` on the collection, with the document's items as the pipeline.
    Aggregate,
    /// `find` on the collection, with the document as the filter.
    Find,
    /// `insert_one` on the collection, with the document.
    InsertOne,
    /// `update_one` on the collection, with the document as the filter.
    UpdateOne,
    /// `update_many` on the collection, with the document as the filter.
    UpdateMany,
    /// `delete_many` on the collection, with the document as the filter.
    DeleteMany,
    /// `find_one_and_delete` on the collection, with the document as the filter.
    FindOneAndDelete,
}

/// One call of the database driver.
#[derive(Debug, PartialEq)]
pub struct DriverCall {
    pub verb: Verb,
    pub db: String,
    pub coll: String,
    /// The command, the filter, the document or the pipeline, as the verb asks.
    pub doc: Json,
    /// The change that an update makes; `null` for the other verbs.
    pub update: Json,
}

/// The model of a [`DriverCall`].
pub struct DriverCallView {
    pub verb: Verb,
    pub db: Seq<char>,
    pub coll: Seq<char>,
    pub doc: JsonTree,
    pub update: JsonTree,
}

impl View for DriverCall {
    type V = DriverCallView;

    open spec fn view(&self) -> DriverCallView {
        DriverCallView {
            verb: self.verb,
            db: self.db@,
            coll: self.coll@,
            doc: self.doc@,
            update: self.update@,
        }
    }
}

/// The models of calls, call by call.
pub open spec fn call_views(calls: Seq<DriverCall>) -> Seq<DriverCallView> {
    Seq::new(calls.len(), |i: int| calls[i]@)
}

/// A call on the database and collection of a record.
pub open spec fn call_for(row: OpRowView, verb: Verb, doc: JsonTree) -> DriverCallView {
    DriverCallView { verb, db: row.db, coll: row.coll, doc, update: JsonTree::Null }
}

/// The call for one entry of an update: `update_many` where the entry's `multi` is
/// true, `update_one` where it is not; none where `q` or `u` is no document.
pub open spec fn update_calls(row: OpRowView, entry: JsonTree) -> Seq<DriverCallView> {
    match (entry.get("q"@), entry.get("u"@)) {
        (Some(JsonTree::Object(q)), Some(JsonTree::Object(u))) => seq![
            DriverCallView {
                verb: if entry.get("multi"@) == Some(JsonTree::Bool(true)) {
                    Verb::UpdateMany
                } else {
                    Verb::UpdateOne
                },
                db: row.db,
                coll: row.coll,
                doc: JsonTree::Object(q),
                update: JsonTree::Object(u),
            },
        ],
        _ => Seq::empty(),
    }
}

/// The call for one entry of a delete: `delete_many`; none where `q` is no document.
pub open spec fn delete_calls(row: OpRowView, entry: JsonTree) -> Seq<DriverCallView> {
    match entry.get("q"@) {
        Some(JsonTree::Object(q)) => seq![call_for(row, Verb::DeleteMany, JsonTree::Object(q))],
        _ => Seq::empty(),
    }
}

/// The calls for the entries of an update, in their order.
pub open spec fn all_update_calls(row: OpRowView, entries: Seq<JsonTree>) -> Seq<DriverCallView>
    decreases entries.len(),
{
    if entries.len() == 0 {
        Seq::empty()
    } else {
        all_update_calls(row, entries.drop_last()) + update_calls(row, entries.last())
    }
}

/// The calls for the entries of a delete, in their order.
pub open spec fn all_delete_calls(row: OpRowView, entries: Seq<JsonTree>) -> Seq<DriverCallView>
    decreases entries.len(),
{
    if entries.len() == 0 {
        Seq::empty()
    } else {
        all_delete_calls(row, entries.drop_last()) + delete_calls(row, entries.last())
    }
}

/// One `insert_one` for each document, without its field `__v`, in their order.
pub open spec fn insert_calls(row: OpRowView, docs: Seq<JsonTree>) -> Seq<DriverCallView>
    decreases docs.len(),
{
    if docs.len() == 0 {
        Seq::empty()
    } else {
        insert_calls(row, docs.drop_last()).push(
            call_for(row, Verb::InsertOne, docs.last().without(seq!["__v"@])),
        )
    }
}

/// Whether an operation of kind `op` is carried out in a run of mode `mode`:
/// one that does nothing never is, and one that writes only in a run that may.
pub open spec fn carried_out(op: Op, mode: OpRunMode) -> bool {
    op != Op::Noop && (!op.writes() || mode == OpRunMode::ReadWrite)
}

/// The calls of the driver that a record turns into in a run of mode `mode`.
pub open spec fn planned(row: OpRowView, mode: OpRunMode) -> Seq<DriverCallView> {
    if !carried_out(row.op, mode) {
        Seq::empty()
    } else {
        match row.op {
            Op::Find | Op::Command => seq![
                call_for(
                    row,
                    if row.cmd.has("count"@) {
                        Verb::RunCommand
                    } else {
                        Verb::RunCursorCommand
                    },
                    row.args,
                ),
            ],
            Op::Count => seq![call_for(row, Verb::RunCommand, row.args)],
            Op::Aggregate => match row.cmd.get("pipeline"@) {
                Some(JsonTree::Array(stages)) => seq![
                    call_for(row, Verb::Aggregate, JsonTree::Array(stages)),
                ],
                _ => Seq::empty(),
            },
            Op::GetMore => match row.cmd.get("originatingCommand"@) {
                Some(origin) => seq![
                    call_for(row, Verb::RunCursorCommand, origin.without(session_fields())),
                ],
                None => seq![call_for(row, Verb::Find, JsonTree::Object(Seq::empty()))],
            },
            Op::Insert => match row.cmd.get("documents"@) {
                Some(JsonTree::Array(docs)) => insert_calls(row, docs),
                _ => Seq::empty(),
            },
            Op::Update => match row.cmd.get("updates"@) {
                Some(JsonTree::Array(entries)) => all_update_calls(row, entries),
                _ => if row.cmd.has("q"@) {
                    update_calls(row, row.cmd)
                } else {
                    Seq::empty()
                },
            },
            Op::Delete => match row.cmd.get("deletes"@) {
                Some(JsonTree::Array(entries)) => all_delete_calls(row, entries),
                _ => if row.cmd.has("q"@) {
                    delete_calls(row, row.cmd)
                } else {
                    Seq::empty()
                },
            },
            Op::FindAndModify => match row.cmd.get("query"@) {
                Some(query) => seq![call_for(row, Verb::FindOneAndDelete, query)],
                None => Seq::empty(),
            },
            Op::Noop => Seq::empty(),
        }
    }
}

/// What a worker does with one record.
#[derive(Debug, PartialEq)]
pub struct Dispatch {
    /// The calls of the driver, in their order.
    pub calls: Vec<DriverCall>,
    /// Whether the record counts as a query and its cost as cost.
    pub counted: bool,
}

/// Whether an operation of kind `op` is carried out in a run of mode `mode`.
pub fn is_carried_out(op: Op, mode: OpRunMode) -> (r: bool)
    ensures
        r == carried_out(op, mode),
{
    match op {
        Op::Noop => false,
        _ => !op.is_write() || mode == OpRunMode::ReadWrite,
    }
}

/// A call on the database and collection of `row`.
fn make_call(row: &OpRow, verb: Verb, doc: Json) -> (call: DriverCall)
    ensures
        call@ == call_for(row@, verb, doc@),
{
    DriverCall { verb, db: row.db.clone(), coll: row.coll.clone(), doc, update: Json::Null }
}

/// Whether `j` is an object.
fn is_object(j: &Json) -> (r: bool)
    ensures
        r == (j@ is Object),
{
    match j {
        Json::Object(_) => true,
        _ => false,
    }
}

/// Adds the call for one entry of an update to `calls`.
fn push_update(row: &OpRow, entry: &Json, calls: &mut Vec<DriverCall>)
    ensures
        call_views(final(calls)@) == call_views(old(calls)@) + update_calls(row@, entry@),
{
    if let Some(q) = entry.get("q") {
        if let Some(u) = entry.get("u") {
            if is_object(q) && is_object(u) {
                let multi = match entry.get("multi") {
                    Some(m) => match m.as_bool() {
                        Some(b) => b,
                        None => false,
                    },
                    None => false,
                };
                let call = DriverCall {
                    verb: if multi {
                        Verb::UpdateMany
                    } else {
                        Verb::UpdateOne
                    },
                    db: row.db.clone(),
                    coll: row.coll.clone(),
                    doc: q.copy(),
                    update: u.copy(),
                };
                calls.push(call);
                return ;
            }
        }
    }
}

/// Adds the call for one entry of a delete to `calls`.
fn push_delete(row: &OpRow, entry: &Json, calls: &mut Vec<DriverCall>)
    ensures
        call_views(final(calls)@) == call_views(old(calls)@) + delete_calls(row@, entry@),
{
    if let Some(q) = entry.get("q") {
        if is_object(q) {
            let call = make_call(row, Verb::DeleteMany, q.copy());
            calls.push(call);
            return ;
        }
    }
}

/// The calls of the driver that `row` turns into in a run of mode `mode`, and
/// whether the record counts as a query.
pub fn dispatch(row: &OpRow, mode: OpRunMode) -> (d: Dispatch)
    ensures
        call_views(d.calls@) == planned(row@, mode),
        d.counted == carried_out(row@.op, mode),
{
    let mut calls: Vec<DriverCall> = Vec::new();
    let counted = is_carried_out(row.op, mode);
    if !counted {
        return Dispatch { calls, counted };
    }
    match row.op {
        Op::Find | Op::Command => {
            let verb = if row.cmd.has("count") {
                Verb::RunCommand
            } else {
                Verb::RunCursorCommand
            };
            calls.push(make_call(row, verb, row.args.copy()));
        },
        Op::Count => {
            calls.push(make_call(row, Verb::RunCommand, row.args.copy()));
        },
        Op::Aggregate => {
            if let Some(p) = row.cmd.get("pipeline") {
                if let Some(stages) = p.as_array() {
                    calls.push(make_call(row, Verb::Aggregate, p.copy()));
                }
            }
        },
        Op::GetMore => {
            match row.cmd.get("originatingCommand") {
                Some(origin) => {
                    let mut drop: Vec<String> = Vec::new();
                    drop.push("lsid".to_string());
                    drop.push("$clusterTime".to_string());
                    drop.push("$db".to_string());
                    assert(drop.deep_view() =~= session_fields());
                    calls.push(make_call(row, Verb::RunCursorCommand, origin.without(&drop)));
                },
                None => {
                    let empty = Json::Object(Vec::new());
                    calls.push(make_call(row, Verb::Find, empty));
                },
            }
        },
        Op::Insert => {
            if let Some(d) = row.cmd.get("documents") {
                if let Some(docs) = d.as_array() {
                    proof {
                        lemma_trees(docs@);
                    }
                    let ghost all = crate::json::trees(docs@);
                    let mut drop: Vec<String> = Vec::new();
                    drop.push("__v".to_string());
                    let mut i: usize = 0;
                    while i < docs.len()
                        invariant
                            i <= docs.len(),
                            all == crate::json::trees(docs@),
                            all.len() == docs@.len(),
                            forall|k: int| 0 <= k < docs@.len() ==> #[trigger] all[k] == docs@[k]@,
                            drop.deep_view() == seq!["__v"@],
                            call_views(calls@) == insert_calls(row@, all.take(i as int)),
                        decreases docs.len() - i,
                    {
                        let call = make_call(row, Verb::InsertOne, docs[i].without(&drop));
                        calls.push(call);
                        proof {
                            let next = all.take(i as int + 1);
                            assert(next.drop_last() =~= all.take(i as int));
                        }
                        i += 1;
                    }
                    assert(all.take(docs.len() as int) =~= all);
                }
            }
        },
        Op::Update => {
            let mut listed = false;
            if let Some(u) = row.cmd.get("updates") {
                if let Some(entries) = u.as_array() {
                    listed = true;
                    proof {
                        lemma_trees(entries@);
                    }
                    let ghost all = crate::json::trees(entries@);
                    let mut i: usize = 0;
                    while i < entries.len()
                        invariant
                            i <= entries.len(),
                            all == crate::json::trees(entries@),
                            all.len() == entries@.len(),
                            forall|k: int|
                                0 <= k < entries@.len() ==> #[trigger] all[k] == entries@[k]@,
                            call_views(calls@) == all_update_calls(row@, all.take(i as int)),
                        decreases entries.len() - i,
                    {
                        push_update(row, &entries[i], &mut calls);
                        proof {
                            let next = all.take(i as int + 1);
                            assert(next.drop_last() =~= all.take(i as int));
                        }
                        i += 1;
                    }
                    assert(all.take(entries.len() as int) =~= all);
                }
            }
            if !listed && row.cmd.has("q") {
                push_update(row, &row.cmd, &mut calls);
            }
        },
        Op::Delete => {
            let mut listed = false;
            if let Some(u) = row.cmd.get("deletes") {
                if let Some(entries) = u.as_array() {
                    listed = true;
                    proof {
                        lemma_trees(entries@);
                    }
                    let ghost all = crate::json::trees(entries@);
                    let mut i: usize = 0;
                    while i < entries.len()
                        invariant
                            i <= entries.len(),
                            all == crate::json::trees(entries@),
                            all.len() == entries@.len(),
                            forall|k: int|
                                0 <= k < entries@.len() ==> #[trigger] all[k] == entries@[k]@,
                            call_views(calls@) == all_delete_calls(row@, all.take(i as int)),
                        decreases entries.len() - i,
                    {
                        push_delete(row, &entries[i], &mut calls);
                        proof {
                            let next = all.take(i as int + 1);
                            assert(next.drop_last() =~= all.take(i as int));
                        }
                        i += 1;
                    }
                    assert(all.take(entries.len() as int) =~= all);
                }
            }
            if !listed && row.cmd.has("q") {
                push_delete(row, &row.cmd, &mut calls);
            }
        },
        Op::FindAndModify => {
            if let Some(query) = row.cmd.get("query") {
                calls.push(make_call(row, Verb::FindOneAndDelete, query.copy()));
            }
        },
        Op::Noop => {},
    }
    Dispatch { calls, counted }
}

} // verus!
