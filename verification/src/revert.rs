//! Reversibility: from a forward log, the log of operations that undo it.
//!
//! An insert is undone from the log alone. An update, a delete and a
//! find-and-modify are undone from the documents as they are before the run: the
//! library says which documents to fetch, and makes the compensating records of
//! what was found.

use crate::json::{lemma_trees, trees, Json, JsonTree};
use crate::op_logs::row_views;
use crate::op_row::{Op, OpRow, OpRowView};
use vstd::prelude::*;

verus! {

/// The `_id`s of the documents that have one, in the documents' order.
pub open spec fn doc_ids(docs: Seq<JsonTree>) -> Seq<JsonTree>
    decreases docs.len(),
{
    if docs.len() == 0 {
        Seq::empty()
    } else {
        match docs.last().get("_id"@) {
            Some(id) => doc_ids(docs.drop_last()).push(id),
            None => doc_ids(docs.drop_last()),
        }
    }
}

/// The predicate that picks the documents with one of the `_id`s `ids`.
pub open spec fn id_in(ids: Seq<JsonTree>) -> JsonTree {
    JsonTree::Object(seq![("_id"@, JsonTree::Object(seq![("$in"@, JsonTree::Array(ids))]))])
}

/// The predicate that picks the document with the `_id` `id`.
pub open spec fn id_is(id: JsonTree) -> JsonTree {
    JsonTree::Object(seq![("_id"@, id)])
}

/// The payload of a delete of all documents that `q` picks.
pub open spec fn delete_cmd(q: JsonTree) -> JsonTree {
    JsonTree::Object(
        seq![
            (
                "deletes"@,
                JsonTree::Array(
                    seq![JsonTree::Object(seq![("q"@, q), ("limit"@, JsonTree::Int(0))])],
                ),
            ),
        ],
    )
}

/// The payload of an insert of the document `doc`.
pub open spec fn insert_cmd(doc: JsonTree) -> JsonTree {
    JsonTree::Object(seq![("documents"@, JsonTree::Array(seq![doc]))])
}

/// The payload of an update that sets the document with the `_id` `id` back to `doc`.
pub open spec fn restore_cmd(id: JsonTree, doc: JsonTree) -> JsonTree {
    JsonTree::Object(
        seq![
            (
                "updates"@,
                JsonTree::Array(
                    seq![
                        JsonTree::Object(
                            seq![
                                ("q"@, id_is(id)),
                                ("u"@, JsonTree::Object(seq![("$set"@, doc)])),
                                ("multi"@, JsonTree::Bool(false)),
                                ("upsert"@, JsonTree::Bool(false)),
                            ],
                        ),
                    ],
                ),
            ),
        ],
    )
}

/// A compensating record for `row`: of the kind `op` with the payload `cmd`, on the
/// namespace and with the id and time of `row`.
pub open spec fn compensation(row: OpRowView, op: Op, cmd: JsonTree) -> OpRowView {
    OpRowView {
        id: row.id,
        op,
        db: row.db,
        coll: row.coll,
        ns: row.ns,
        ts: row.ts,
        cmd,
        args: JsonTree::Object(Seq::empty()),
        key: Seq::empty(),
        hash: Seq::empty(),
    }
}

/// The record that undoes `row` from the log alone: for an insert the delete of the
/// inserted `_id`s, and none for any other record.
pub open spec fn reverted(row: OpRowView) -> Option<OpRowView> {
    if row.op == Op::Insert {
        match row.cmd.get("documents"@) {
            Some(JsonTree::Array(docs)) => Some(
                compensation(row, Op::Delete, delete_cmd(id_in(doc_ids(docs)))),
            ),
            _ => None,
        }
    } else {
        None
    }
}

/// The records that undo the records of `log`, in the order of `log`.
pub open spec fn reverted_rows(log: Seq<OpRowView>) -> Seq<OpRowView>
    decreases log.len(),
{
    if log.len() == 0 {
        Seq::empty()
    } else {
        match reverted(log.last()) {
            Some(r) => reverted_rows(log.drop_last()).push(r),
            None => reverted_rows(log.drop_last()),
        }
    }
}

/// The compensating log of `log`: the records that undo its records, the one for
/// the latest record first.
pub open spec fn revert_log(log: Seq<OpRowView>) -> Seq<OpRowView> {
    reverted_rows(log).reverse()
}

/// A compensating record for `row`.
pub(crate) fn make_compensation(row: &OpRow, op: Op, cmd: Json) -> (r: OpRow)
    ensures
        r@ == compensation(row@, op, cmd@),
{
    OpRow {
        id: row.id.clone(),
        op,
        db: row.db.clone(),
        coll: row.coll.clone(),
        ns: row.ns.clone(),
        ts: row.ts,
        cmd,
        args: Json::empty_object(),
        key: String::new(),
        hash: String::new(),
    }
}

/// The payload of a delete of all documents that `q` picks.
pub(crate) fn make_delete_cmd(q: Json) -> (cmd: Json)
    ensures
        cmd@ == delete_cmd(q@),
{
    Json::object1("deletes", Json::array1(Json::object2("q", q, "limit", Json::Int(0))))
}

/// The payload of an insert of `doc`.
pub(crate) fn make_insert_cmd(doc: Json) -> (cmd: Json)
    ensures
        cmd@ == insert_cmd(doc@),
{
    Json::object1("documents", Json::array1(doc))
}

/// The payload of an update that sets the document with the `_id` `id` back to `doc`.
pub(crate) fn make_restore_cmd(id: Json, doc: Json) -> (cmd: Json)
    ensures
        cmd@ == restore_cmd(id@, doc@),
{
    let mut fields: Vec<(String, Json)> = Vec::new();
    fields.push(("q".to_string(), Json::object1("_id", id)));
    fields.push(("u".to_string(), Json::object1("$set", doc)));
    fields.push(("multi".to_string(), Json::Bool(false)));
    fields.push(("upsert".to_string(), Json::Bool(false)));
    proof {
        crate::json::lemma_tree_fields(fields@);
        assert(crate::json::tree_fields(fields@) =~= seq![
            ("q"@, id_is(id@)),
            ("u"@, JsonTree::Object(seq![("$set"@, doc@)])),
            ("multi"@, JsonTree::Bool(false)),
            ("upsert"@, JsonTree::Bool(false)),
        ]);
    }
    Json::object1("updates", Json::array1(Json::Object(fields)))
}

/// The `_id`s of the documents of `docs` that have one.
fn collect_ids(docs: &Vec<Json>) -> (ids: Vec<Json>)
    ensures
        trees(ids@) == doc_ids(trees(docs@)),
{
    proof {
        lemma_trees(docs@);
    }
    let ghost all = trees(docs@);
    let mut ids: Vec<Json> = Vec::new();
    let mut i: usize = 0;
    while i < docs.len()
        invariant
            i <= docs.len(),
            all == trees(docs@),
            all.len() == docs@.len(),
            forall|k: int| 0 <= k < docs@.len() ==> #[trigger] all[k] == docs@[k]@,
            trees(ids@) == doc_ids(all.take(i as int)),
        decreases docs.len() - i,
    {
        proof {
            let next = all.take(i as int + 1);
            assert(next.drop_last() =~= all.take(i as int));
        }
        if let Some(id) = docs[i].get("_id") {
            let id = id.copy();
            proof {
                crate::json::lemma_trees_push(ids@, id);
            }
            ids.push(id);
        }
        i += 1;
    }
    assert(all.take(docs.len() as int) =~= all);
    ids
}

/// The record that undoes `row` from the log alone.
pub fn revert_row(row: &OpRow) -> (r: Option<OpRow>)
    ensures
        match r {
            Some(undo) => reverted(row@) == Some(undo@),
            None => reverted(row@).is_none(),
        },
{
    match row.op {
        Op::Insert => {
            if let Some(d) = row.cmd.get("documents") {
                if let Some(docs) = d.as_array() {
                    let ids = collect_ids(docs);
                    let q = Json::object1("_id", Json::object1("$in", Json::Array(ids)));
                    return Some(make_compensation(row, Op::Delete, make_delete_cmd(q)));
                }
            }
            None
        },
        _ => None,
    }
}

/// The compensating log of the forward log `rows`: it undoes what can be undone
/// from the log alone, the latest record first.
pub fn op_revert(rows: &Vec<OpRow>) -> (undo: Vec<OpRow>)
    ensures
        row_views(undo@) == revert_log(row_views(rows@)),
{
    let ghost log = row_views(rows@);
    let mut forward: Vec<OpRow> = Vec::new();
    let mut i: usize = 0;
    while i < rows.len()
        invariant
            i <= rows.len(),
            log == row_views(rows@),
            row_views(forward@) == reverted_rows(log.take(i as int)),
        decreases rows.len() - i,
    {
        proof {
            let next = log.take(i as int + 1);
            assert(next.drop_last() =~= log.take(i as int));
        }
        if let Some(r) = revert_row(&rows[i]) {
            forward.push(r);
        }
        i += 1;
    }
    assert(log.take(rows.len() as int) =~= log);
    let mut undo: Vec<OpRow> = Vec::new();
    let n = forward.len();
    let mut k: usize = 0;
    while k < n
        invariant
            n == forward.len(),
            k <= n,
            undo@.len() == k,
            forall|j: int| 0 <= j < k ==> undo@[j]@ == forward@[n - 1 - j]@,
        decreases n - k,
    {
        undo.push(forward[n - 1 - k].copy());
        k += 1;
    }
    undo
}

} // verus!
