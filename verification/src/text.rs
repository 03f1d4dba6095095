//! JSON text, read and written by `serde_json`.

use crate::json::{
    lemma_tree_fields, lemma_tree_fields_push, lemma_trees, lemma_trees_push, tree_fields, trees,
    Json, JsonTree,
};
use vstd::prelude::*;

verus! {

/// `serde_json::Value`, carried through as it is.
#[verifier::external_type_specification]
#[verifier::external_body]
pub struct ExValue(serde_json::Value);

/// `serde_json::Number`, carried through as it is.
#[verifier::external_type_specification]
#[verifier::external_body]
pub struct ExNumber(serde_json::Number);

/// The tree that `serde_json` reads from a text, or nothing where the text is not
/// one JSON value.
pub uninterp spec fn json_read(text: Seq<char>) -> Option<JsonTree>;

/// The text that `serde_json` writes for a tree, on one line.
pub uninterp spec fn json_written(tree: JsonTree) -> Seq<char>;

/// Whether `serde_json` reads a text as one JSON number.
pub uninterp spec fn number_text(text: Seq<char>) -> bool;

/// Trusted: whether `serde_json::from_str` reads a `serde_json::Number` from the
/// text; that depends on the text alone.
#[verifier::external_body]
fn reads_as_number(text: &str) -> (r: bool)
    ensures
        r == number_text(text@),
{
    serde_json::from_str::<serde_json::Number>(text).is_ok()
}

/// The tree as it is written: a `Real` whose text is no JSON number stands as
/// `null`, at whatever depth; everything else stands as it is.
pub open spec fn writable(tree: JsonTree) -> JsonTree
    decreases tree, 1nat,
{
    match tree {
        JsonTree::Real(text) => if number_text(text) {
            tree
        } else {
            JsonTree::Null
        },
        JsonTree::Array(items) => JsonTree::Array(writable_items(items)),
        JsonTree::Object(fields) => JsonTree::Object(writable_fields(fields)),
        other => other,
    }
}

/// The items as they are written, item by item.
pub open spec fn writable_items(items: Seq<JsonTree>) -> Seq<JsonTree>
    decreases items, 0nat,
{
    if items.len() == 0 {
        Seq::empty()
    } else {
        writable_items(items.drop_last()).push(writable(items.last()))
    }
}

/// The fields as they are written, field by field.
pub open spec fn writable_fields(fields: Seq<(Seq<char>, JsonTree)>) -> Seq<
    (Seq<char>, JsonTree),
>
    decreases fields, 0nat,
{
    if fields.len() == 0 {
        Seq::empty()
    } else {
        writable_fields(fields.drop_last()).push((fields.last().0, writable(fields.last().1)))
    }
}

/// The JSON text of a tree: what `serde_json` writes for the tree as it is
/// written.
pub open spec fn json_text(tree: JsonTree) -> Seq<char> {
    json_written(writable(tree))
}

/// Trusted: tells the three kinds of a `serde_json::Number` apart with `as_i64`
/// and `as_u64`, and keeps any other number as the text that its `to_string` gives.
#[verifier::external_body]
fn number_to_json(n: serde_json::Number) -> Json {
    match (n.as_i64(), n.as_u64()) {
        (Some(i), _) => Json::Int(i),
        (None, Some(u)) => Json::UInt(u),
        (None, None) => Json::Real(n.to_string()),
    }
}

/// Trusted: changes a `serde_json::Value` into a `Json`, variant by variant; an
/// object's fields come in the order in which its map hands them out.
#[verifier::external_body]
fn value_to_json(v: serde_json::Value) -> Json {
    match v {
        serde_json::Value::Null => Json::Null,
        serde_json::Value::Bool(b) => Json::Bool(b),
        serde_json::Value::Number(n) => number_to_json(n),
        serde_json::Value::String(s) => Json::Str(s),
        serde_json::Value::Array(a) => Json::Array(a.into_iter().map(value_to_json).collect()),
        serde_json::Value::Object(m) => Json::Object(
            m.into_iter().map(|(k, v)| (k, value_to_json(v))).collect(),
        ),
    }
}

/// Trusted: the `serde_json::Number` that `serde_json::from_str` reads from the
/// text of a `Real`. Where it reads none the value is `null`; the library hands
/// no such text over, because it writes the tree as `writable` gives it.
#[verifier::external_body]
fn real_to_value(text: &str) -> serde_json::Value {
    match serde_json::from_str::<serde_json::Number>(text) {
        Ok(n) => serde_json::Value::Number(n),
        Err(_) => serde_json::Value::Null,
    }
}

/// Trusted: changes a `Json` into a `serde_json::Value`, variant by variant; of
/// two fields with one name the map keeps the later.
#[verifier::external_body]
fn json_to_value(j: &Json) -> serde_json::Value {
    match j {
        Json::Null => serde_json::Value::Null,
        Json::Bool(b) => serde_json::Value::Bool(*b),
        Json::Int(n) => serde_json::Value::Number(serde_json::Number::from(*n)),
        Json::UInt(n) => serde_json::Value::Number(serde_json::Number::from(*n)),
        Json::Real(s) => real_to_value(s),
        Json::Str(s) => serde_json::Value::String(s.clone()),
        Json::Array(a) => serde_json::Value::Array(a.iter().map(json_to_value).collect()),
        Json::Object(f) => serde_json::Value::Object(
            f.iter().map(|(k, v)| (k.clone(), json_to_value(v))).collect(),
        ),
    }
}

/// Trusted: `serde_json::from_str` reads one JSON value from the text or fails; what
/// it reads depends on the text alone.
#[verifier::external_body]
fn read_value(text: &str) -> (r: Option<Json>)
    ensures
        match r {
            Some(j) => json_read(text@) == Some(j@),
            None => json_read(text@).is_none(),
        },
{
    match serde_json::from_str::<serde_json::Value>(text) {
        Ok(v) => Some(value_to_json(v)),
        Err(_) => None,
    }
}

/// Trusted: `serde_json::to_string` writes a value as compact JSON without a line
/// break; what it writes depends on the value alone.
#[verifier::external_body]
fn write_value(j: &Json) -> (r: String)
    ensures
        r@ == json_written(j@),
{
    serde_json::to_string(&json_to_value(j)).unwrap_or_default()
}

impl Json {
    /// Reads one JSON value from a text.
    pub fn parse(text: &str) -> (r: Option<Json>)
        ensures
            match r {
                Some(j) => json_read(text@) == Some(j@),
                None => json_read(text@).is_none(),
            },
    {
        read_value(text)
    }

    /// The value as it is written: a copy in which each `Real` whose text is no
    /// JSON number is `null`.
    pub fn writable(&self) -> (r: Json)
        ensures
            r@ == writable(self@),
        decreases self, 1nat,
    {
        match self {
            Json::Null => Json::Null,
            Json::Bool(b) => Json::Bool(*b),
            Json::Int(n) => Json::Int(*n),
            Json::UInt(n) => Json::UInt(*n),
            Json::Real(s) => if reads_as_number(s.as_str()) {
                Json::Real(s.clone())
            } else {
                Json::Null
            },
            Json::Str(s) => Json::Str(s.clone()),
            Json::Array(items) => Json::Array(Self::writable_items(items)),
            Json::Object(fields) => Json::Object(Self::writable_fields(fields)),
        }
    }

    /// The items as they are written, in their order.
    pub fn writable_items(items: &Vec<Json>) -> (out: Vec<Json>)
        ensures
            trees(out@) == writable_items(trees(items@)),
        decreases items, 0nat,
    {
        proof {
            lemma_trees(items@);
        }
        let ghost all = trees(items@);
        let mut out: Vec<Json> = Vec::new();
        let mut i: usize = 0;
        assert(all.take(0) =~= Seq::<JsonTree>::empty());
        while i < items.len()
            invariant
                i <= items.len(),
                all == trees(items@),
                all.len() == items@.len(),
                forall|k: int| 0 <= k < items@.len() ==> #[trigger] all[k] == items@[k]@,
                trees(out@) == writable_items(all.take(i as int)),
            decreases items.len() - i,
        {
            let item = items[i].writable();
            proof {
                let next = all.take(i as int + 1);
                assert(next.drop_last() =~= all.take(i as int));
                assert(next.last() == all[i as int]);
                lemma_trees_push(out@, item);
            }
            out.push(item);
            i += 1;
        }
        assert(all.take(items.len() as int) =~= all);
        out
    }

    /// The fields as they are written, in their order.
    pub fn writable_fields(fields: &Vec<(String, Json)>) -> (out: Vec<(String, Json)>)
        ensures
            tree_fields(out@) == writable_fields(tree_fields(fields@)),
        decreases fields, 0nat,
    {
        proof {
            lemma_tree_fields(fields@);
        }
        let ghost all = tree_fields(fields@);
        let mut out: Vec<(String, Json)> = Vec::new();
        let mut i: usize = 0;
        assert(all.take(0) =~= Seq::<(Seq<char>, JsonTree)>::empty());
        while i < fields.len()
            invariant
                i <= fields.len(),
                all == tree_fields(fields@),
                all.len() == fields@.len(),
                forall|k: int|
                    0 <= k < fields@.len() ==> #[trigger] all[k] == (
                        fields@[k].0@,
                        fields@[k].1@,
                    ),
                tree_fields(out@) == writable_fields(all.take(i as int)),
            decreases fields.len() - i,
        {
            let field = (fields[i].0.clone(), fields[i].1.writable());
            proof {
                let next = all.take(i as int + 1);
                assert(next.drop_last() =~= all.take(i as int));
                assert(next.last() == all[i as int]);
                lemma_tree_fields_push(out@, field);
            }
            out.push(field);
            i += 1;
        }
        assert(all.take(fields.len() as int) =~= all);
        out
    }

    /// Writes the value as JSON text on one line. A `Real` whose text is no
    /// JSON number is written as `null`.
    pub fn to_text(&self) -> (r: String)
        ensures
            r@ == json_text(self@),
    {
        let tree = self.writable();
        write_value(&tree)
    }
}

} // verus!
