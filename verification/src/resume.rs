//! Restoring from pre-images: which documents to fetch before a run, and the
//! records that put them back.
//!
//! The caller walks the forward log. For each record it asks for the predicates,
//! fetches the documents that each of them picks now, and is given the records
//! that bring those documents back to what they are now.

use crate::json::{lemma_trees, trees, Json, JsonTree};
use crate::op_logs::row_views;
use crate::op_row::{Op, OpRow, OpRowView};
use crate::revert::{
    compensation, delete_cmd, id_is, insert_cmd, make_compensation, make_delete_cmd,
    make_insert_cmd, make_restore_cmd, restore_cmd,
};
use vstd::prelude::*;

verus! {

/// The entries of the list `list` of a payload; a payload without such a list is
/// its own single entry.
pub open spec fn entries_of(cmd: JsonTree, list: Seq<char>) -> Seq<JsonTree> {
    match cmd.get(list) {
        Some(JsonTree::Array(items)) => items,
        _ => seq![cmd],
    }
}

/// The predicates `q` of the entries that have one, in the entries' order.
pub open spec fn entry_filters(entries: Seq<JsonTree>) -> Seq<JsonTree>
    decreases entries.len(),
{
    if entries.len() == 0 {
        Seq::empty()
    } else {
        match entries.last().get("q"@) {
            Some(q) => entry_filters(entries.drop_last()).push(q),
            None => entry_filters(entries.drop_last()),
        }
    }
}

/// For each document that has an `_id`, the predicate that picks it by that `_id`.
pub open spec fn id_filters(docs: Seq<JsonTree>) -> Seq<JsonTree>
    decreases docs.len(),
{
    if docs.len() == 0 {
        Seq::empty()
    } else {
        match docs.last().get("_id"@) {
            Some(id) => id_filters(docs.drop_last()).push(id_is(id)),
            None => id_filters(docs.drop_last()),
        }
    }
}

/// Whether a find-and-modify removes the document that it finds.
pub open spec fn removes(cmd: JsonTree) -> bool {
    cmd.get("remove"@) == Some(JsonTree::Bool(true))
}

/// The predicates whose documents are fetched before `row` is replayed.
pub open spec fn resume_filters(row: OpRowView) -> Seq<JsonTree> {
    match row.op {
        Op::Insert => match row.cmd.get("documents"@) {
            Some(JsonTree::Array(docs)) => id_filters(docs),
            _ => Seq::empty(),
        },
        Op::Update => entry_filters(entries_of(row.cmd, "updates"@)),
        Op::Delete => entry_filters(entries_of(row.cmd, "deletes"@)),
        Op::FindAndModify => match row.cmd.get("query"@) {
            Some(q) => seq![q],
            None => Seq::empty(),
        },
        _ => Seq::empty(),
    }
}

/// For each document of `found` that has an `_id`, the update that sets the
/// document with that `_id` back to it.
pub open spec fn restores(row: OpRowView, found: Seq<JsonTree>) -> Seq<OpRowView>
    decreases found.len(),
{
    if found.len() == 0 {
        Seq::empty()
    } else {
        match found.last().get("_id"@) {
            Some(id) => restores(row, found.drop_last()).push(
                compensation(row, Op::Update, restore_cmd(id, found.last())),
            ),
            None => restores(row, found.drop_last()),
        }
    }
}

/// For each document of `found`, the insert of it.
pub open spec fn reinserts(row: OpRowView, found: Seq<JsonTree>) -> Seq<OpRowView>
    decreases found.len(),
{
    if found.len() == 0 {
        Seq::empty()
    } else {
        reinserts(row, found.drop_last()).push(
            compensation(row, Op::Insert, insert_cmd(found.last())),
        )
    }
}

/// The records that undo what `row` does to the documents that `filter` picks,
/// where `found` are those documents as they are before the run.
///
/// An inserted document that is there already is set back, and one that is not is
/// deleted. Updated documents are set back. Deleted documents are inserted. What a
/// find-and-modify removes is inserted, and what it changes is set back.
pub open spec fn resumed(row: OpRowView, filter: JsonTree, found: Seq<JsonTree>) -> Seq<
    OpRowView,
> {
    match row.op {
        Op::Insert => if found.len() > 0 {
            match filter.get("_id"@) {
                Some(id) => seq![compensation(row, Op::Update, restore_cmd(id, found[0]))],
                None => Seq::empty(),
            }
        } else {
            seq![compensation(row, Op::Delete, delete_cmd(filter))]
        },
        Op::Update => restores(row, found),
        Op::Delete => reinserts(row, found),
        Op::FindAndModify => if removes(row.cmd) {
            reinserts(row, found)
        } else {
            restores(row, found)
        },
        _ => Seq::empty(),
    }
}

/// The predicates whose documents are exported for `row`: those of an update, and
/// that of a find-and-modify that changes what it finds.
pub open spec fn export_filters(row: OpRowView) -> Seq<JsonTree> {
    match row.op {
        Op::Update => entry_filters(entries_of(row.cmd, "updates"@)),
        Op::FindAndModify => if removes(row.cmd) {
            Seq::empty()
        } else {
            match row.cmd.get("query"@) {
                Some(q) => seq![q],
                None => Seq::empty(),
            }
        },
        _ => Seq::empty(),
    }
}

/// The records of the exported documents `found` of `row`: one insert for each.
pub open spec fn exported(row: OpRowView, found: Seq<JsonTree>) -> Seq<OpRowView> {
    match row.op {
        Op::Update => reinserts(row, found),
        Op::FindAndModify => if removes(row.cmd) {
            Seq::empty()
        } else {
            reinserts(row, found)
        },
        _ => Seq::empty(),
    }
}

/// The predicates `q` of the entries of the list `list` of `cmd`.
fn filters_of(cmd: &Json, list: &str) -> (out: Vec<Json>)
    ensures
        trees(out@) == entry_filters(entries_of(cmd@, list@)),
{
    let mut out: Vec<Json> = Vec::new();
    let listed = match cmd.get(list) {
        Some(l) => l.as_array(),
        None => None,
    };
    match listed {
        Some(entries) => {
            proof {
                lemma_trees(entries@);
            }
            let ghost all = trees(entries@);
            let mut i: usize = 0;
            while i < entries.len()
                invariant
                    i <= entries.len(),
                    all == trees(entries@),
                    all.len() == entries@.len(),
                    forall|k: int| 0 <= k < entries@.len() ==> #[trigger] all[k] == entries@[k]@,
                    trees(out@) == entry_filters(all.take(i as int)),
                decreases entries.len() - i,
            {
                proof {
                    let next = all.take(i as int + 1);
                    assert(next.drop_last() =~= all.take(i as int));
                }
                if let Some(q) = entries[i].get("q") {
                    let q = q.copy();
                    proof {
                        crate::json::lemma_trees_push(out@, q);
                    }
                    out.push(q);
                }
                i += 1;
            }
            assert(all.take(entries.len() as int) =~= all);
        },
        None => {
            proof {
                let one = seq![cmd@];
                assert(entry_filters(one.drop_last()) =~= Seq::<JsonTree>::empty());
            }
            if let Some(q) = cmd.get("q") {
                let q = q.copy();
                proof {
                    crate::json::lemma_trees_push(out@, q);
                }
                out.push(q);
            }
        },
    }
    out
}

/// The predicate of a find-and-modify, if it has one.
fn query_of(cmd: &Json) -> (out: Vec<Json>)
    ensures
        trees(out@) == match cmd@.get("query"@) {
            Some(q) => seq![q],
            None => Seq::<JsonTree>::empty(),
        },
{
    let mut out: Vec<Json> = Vec::new();
    if let Some(q) = cmd.get("query") {
        let q = q.copy();
        proof {
            crate::json::lemma_trees_push(out@, q);
        }
        out.push(q);
    }
    out
}

/// Whether a find-and-modify removes what it finds.
fn is_remove(cmd: &Json) -> (r: bool)
    ensures
        r == removes(cmd@),
{
    match cmd.get("remove") {
        Some(v) => match v.as_bool() {
            Some(b) => b,
            None => false,
        },
        None => false,
    }
}

/// The predicates whose documents are fetched before `row` is replayed.
pub fn resume_queries(row: &OpRow) -> (filters: Vec<Json>)
    ensures
        trees(filters@) == resume_filters(row@),
{
    match row.op {
        Op::Insert => {
            let mut out: Vec<Json> = Vec::new();
            if let Some(d) = row.cmd.get("documents") {
                if let Some(docs) = d.as_array() {
                    proof {
                        lemma_trees(docs@);
                    }
                    let ghost all = trees(docs@);
                    let mut i: usize = 0;
                    while i < docs.len()
                        invariant
                            i <= docs.len(),
                            all == trees(docs@),
                            all.len() == docs@.len(),
                            forall|k: int| 0 <= k < docs@.len() ==> #[trigger] all[k] == docs@[k]@,
                            trees(out@) == id_filters(all.take(i as int)),
                        decreases docs.len() - i,
                    {
                        proof {
                            let next = all.take(i as int + 1);
                            assert(next.drop_last() =~= all.take(i as int));
                        }
                        if let Some(id) = docs[i].get("_id") {
                            let q = Json::object1("_id", id.copy());
                            proof {
                                crate::json::lemma_trees_push(out@, q);
                            }
                            out.push(q);
                        }
                        i += 1;
                    }
                    assert(all.take(docs.len() as int) =~= all);
                }
            }
            out
        },
        Op::Update => filters_of(&row.cmd, "updates"),
        Op::Delete => filters_of(&row.cmd, "deletes"),
        Op::FindAndModify => query_of(&row.cmd),
        _ => Vec::new(),
    }
}

/// For each document of `found` that has an `_id`, the update that sets it back.
fn make_restores(row: &OpRow, found: &Vec<Json>) -> (out: Vec<OpRow>)
    ensures
        row_views(out@) == restores(row@, trees(found@)),
{
    proof {
        lemma_trees(found@);
    }
    let ghost all = trees(found@);
    let mut out: Vec<OpRow> = Vec::new();
    let mut i: usize = 0;
    while i < found.len()
        invariant
            i <= found.len(),
            all == trees(found@),
            all.len() == found@.len(),
            forall|k: int| 0 <= k < found@.len() ==> #[trigger] all[k] == found@[k]@,
            row_views(out@) == restores(row@, all.take(i as int)),
        decreases found.len() - i,
    {
        proof {
            let next = all.take(i as int + 1);
            assert(next.drop_last() =~= all.take(i as int));
        }
        if let Some(id) = found[i].get("_id") {
            let r = make_compensation(row, Op::Update, make_restore_cmd(id.copy(), found[i].copy()));
            out.push(r);
        }
        i += 1;
    }
    assert(all.take(found.len() as int) =~= all);
    out
}

/// For each document of `found`, the insert of it.
fn make_reinserts(row: &OpRow, found: &Vec<Json>) -> (out: Vec<OpRow>)
    ensures
        row_views(out@) == reinserts(row@, trees(found@)),
{
    proof {
        lemma_trees(found@);
    }
    let ghost all = trees(found@);
    let mut out: Vec<OpRow> = Vec::new();
    let mut i: usize = 0;
    while i < found.len()
        invariant
            i <= found.len(),
            all == trees(found@),
            all.len() == found@.len(),
            forall|k: int| 0 <= k < found@.len() ==> #[trigger] all[k] == found@[k]@,
            row_views(out@) == reinserts(row@, all.take(i as int)),
        decreases found.len() - i,
    {
        proof {
            let next = all.take(i as int + 1);
            assert(next.drop_last() =~= all.take(i as int));
        }
        let r = make_compensation(row, Op::Insert, make_insert_cmd(found[i].copy()));
        let ghost before = row_views(out@);
        out.push(r);
        i += 1;
    }
    assert(all.take(found.len() as int) =~= all);
    out
}

/// The records that undo what `row` does to the documents that `filter` picks,
/// where `found` are those documents as they are before the run.
pub fn resume_rows(row: &OpRow, filter: &Json, found: &Vec<Json>) -> (undo: Vec<OpRow>)
    ensures
        row_views(undo@) == resumed(row@, filter@, trees(found@)),
{
    proof {
        lemma_trees(found@);
    }
    match row.op {
        Op::Insert => {
            let mut out: Vec<OpRow> = Vec::new();
            if found.len() > 0 {
                if let Some(id) = filter.get("_id") {
                    let r = make_compensation(row, Op::Update, make_restore_cmd(id.copy(), found[0].copy()));
                    out.push(r);
                }
            } else {
                let r = make_compensation(row, Op::Delete, make_delete_cmd(filter.copy()));
                out.push(r);
            }
            out
        },
        Op::Update => make_restores(row, found),
        Op::Delete => make_reinserts(row, found),
        Op::FindAndModify => {
            if is_remove(&row.cmd) {
                make_reinserts(row, found)
            } else {
                make_restores(row, found)
            }
        },
        _ => {
            let out: Vec<OpRow> = Vec::new();
            out
        },
    }
}

/// The predicates whose documents are exported for `row`.
pub fn export_queries(row: &OpRow) -> (filters: Vec<Json>)
    ensures
        trees(filters@) == export_filters(row@),
{
    match row.op {
        Op::Update => filters_of(&row.cmd, "updates"),
        Op::FindAndModify => {
            if is_remove(&row.cmd) {
                Vec::new()
            } else {
                query_of(&row.cmd)
            }
        },
        _ => Vec::new(),
    }
}

/// The records of the exported documents `found` of `row`.
pub fn export_rows(row: &OpRow, found: &Vec<Json>) -> (out: Vec<OpRow>)
    ensures
        row_views(out@) == exported(row@, trees(found@)),
{
    let export = match row.op {
        Op::Update => true,
        Op::FindAndModify => !is_remove(&row.cmd),
        _ => false,
    };
    if export {
        make_reinserts(row, found)
    } else {
        let out: Vec<OpRow> = Vec::new();
        out
    }
}

} // verus!
