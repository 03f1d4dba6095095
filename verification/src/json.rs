//! A JSON-compatible tree: the shape of a command payload.
//!
//! `Json` is the executable value and `JsonTree` its mathematical model, in which
//! strings are sequences of characters and arrays and objects are sequences.
//! An object keeps its fields in the order in which they were given, because the
//! first field of a database command names the command.

use crate::strings::str_eq;
use vstd::prelude::*;

verus! {

/// A JSON value.
///
/// A number that fits `i64` is an `Int`, a larger one a `UInt`, and any other
/// number is a `Real` that holds the number's decimal text.
#[derive(Debug, PartialEq)]
pub enum Json {
    Null,
    Bool(bool),
    Int(i64),
    UInt(u64),
    Real(String),
    Str(String),
    Array(Vec<Json>),
    Object(Vec<(String, Json)>),
}

/// The model of a [`Json`] value.
pub enum JsonTree {
    Null,
    Bool(bool),
    Int(i64),
    UInt(u64),
    Real(Seq<char>),
    Str(Seq<char>),
    Array(Seq<JsonTree>),
    Object(Seq<(Seq<char>, JsonTree)>),
}

/// The model of one value.
pub open spec fn tree_of(j: Json) -> JsonTree
    decreases j,
{
    match j {
        Json::Null => JsonTree::Null,
        Json::Bool(b) => JsonTree::Bool(b),
        Json::Int(n) => JsonTree::Int(n),
        Json::UInt(n) => JsonTree::UInt(n),
        Json::Real(s) => JsonTree::Real(s@),
        Json::Str(s) => JsonTree::Str(s@),
        Json::Array(items) => JsonTree::Array(trees(items@)),
        Json::Object(fields) => JsonTree::Object(tree_fields(fields@)),
    }
}

/// The models of a sequence of values, item by item.
pub open spec fn trees(items: Seq<Json>) -> Seq<JsonTree>
    decreases items,
{
    if items.len() == 0 {
        Seq::empty()
    } else {
        trees(items.drop_last()).push(tree_of(items.last()))
    }
}

/// The models of the fields of an object, field by field.
pub open spec fn tree_fields(fields: Seq<(String, Json)>) -> Seq<(Seq<char>, JsonTree)>
    decreases fields,
{
    if fields.len() == 0 {
        Seq::empty()
    } else {
        tree_fields(fields.drop_last()).push((fields.last().0@, tree_of(fields.last().1)))
    }
}

impl View for Json {
    type V = JsonTree;

    open spec fn view(&self) -> JsonTree {
        tree_of(*self)
    }
}

/// `trees` keeps the length and models each item in place.
pub proof fn lemma_trees(items: Seq<Json>)
    ensures
        trees(items).len() == items.len(),
        forall|i: int| 0 <= i < items.len() ==> #[trigger] trees(items)[i] == items[i]@,
    decreases items.len(),
{
    if items.len() > 0 {
        lemma_trees(items.drop_last());
    }
}

/// `tree_fields` keeps the length and models each field in place.
pub proof fn lemma_tree_fields(fields: Seq<(String, Json)>)
    ensures
        tree_fields(fields).len() == fields.len(),
        forall|i: int|
            0 <= i < fields.len() ==> #[trigger] tree_fields(fields)[i] == (
                fields[i].0@,
                fields[i].1@,
            ),
    decreases fields.len(),
{
    if fields.len() > 0 {
        lemma_tree_fields(fields.drop_last());
    }
}

/// Adding an item at the end adds its model at the end.
pub proof fn lemma_trees_push(items: Seq<Json>, j: Json)
    ensures
        trees(items.push(j)) == trees(items).push(j@),
{
    assert(items.push(j).drop_last() =~= items);
}

/// Adding a field at the end adds its model at the end.
pub proof fn lemma_tree_fields_push(fields: Seq<(String, Json)>, f: (String, Json))
    ensures
        tree_fields(fields.push(f)) == tree_fields(fields).push((f.0@, f.1@)),
{
    assert(fields.push(f).drop_last() =~= fields);
}

/// The first field of `fields` that is named `key`, if there is one.
pub open spec fn find_field(fields: Seq<(Seq<char>, JsonTree)>, key: Seq<char>) -> Option<
    JsonTree,
>
    decreases fields.len(),
{
    if fields.len() == 0 {
        None
    } else if fields[0].0 == key {
        Some(fields[0].1)
    } else {
        find_field(fields.skip(1), key)
    }
}

/// `fields` without the fields named by one of `keys`, the others in their order.
pub open spec fn drop_fields(fields: Seq<(Seq<char>, JsonTree)>, keys: Seq<Seq<char>>) -> Seq<
    (Seq<char>, JsonTree),
>
    decreases fields.len(),
{
    if fields.len() == 0 {
        Seq::empty()
    } else {
        let rest = drop_fields(fields.drop_last(), keys);
        if keys.contains(fields.last().0) {
            rest
        } else {
            rest.push(fields.last())
        }
    }
}

impl JsonTree {
    /// The value of the first field named `key` of an object; nothing for any other value.
    pub open spec fn get(self, key: Seq<char>) -> Option<JsonTree> {
        match self {
            JsonTree::Object(fields) => find_field(fields, key),
            _ => None,
        }
    }

    /// Whether an object has a field named `key`.
    pub open spec fn has(self, key: Seq<char>) -> bool {
        self.get(key).is_some()
    }

    /// The items of an array; nothing for any other value.
    pub open spec fn items(self) -> Option<Seq<JsonTree>> {
        match self {
            JsonTree::Array(items) => Some(items),
            _ => None,
        }
    }

    /// An object without its fields named by one of `keys`; any other value unchanged.
    pub open spec fn without(self, keys: Seq<Seq<char>>) -> JsonTree {
        match self {
            JsonTree::Object(fields) => JsonTree::Object(drop_fields(fields, keys)),
            other => other,
        }
    }

    /// An object in which the first field named `key`, if there is one, comes first
    /// and the other fields keep their order; any other value unchanged.
    pub open spec fn with_first(self, key: Seq<char>) -> JsonTree {
        match self {
            JsonTree::Object(fields) => match find_field(fields, key) {
                Some(v) => JsonTree::Object(seq![(key, v)] + drop_fields(fields, seq![key])),
                None => self,
            },
            other => other,
        }
    }
}

/// The model of two runs of fields, one after the other.
pub proof fn lemma_tree_fields_add(a: Seq<(String, Json)>, b: Seq<(String, Json)>)
    ensures
        tree_fields(a + b) == tree_fields(a) + tree_fields(b),
{
    lemma_tree_fields(a);
    lemma_tree_fields(b);
    lemma_tree_fields(a + b);
}

/// Whether one of `names` is `name`.
pub fn name_in(names: &Vec<String>, name: &str) -> (found: bool)
    ensures
        found == names.deep_view().contains(name@),
{
    let mut i: usize = 0;
    while i < names.len()
        invariant
            i <= names.len(),
            forall|k: int| 0 <= k < i ==> names.deep_view()[k] != name@,
        decreases names.len() - i,
    {
        if str_eq(names[i].as_str(), name) {
            assert(names.deep_view()[i as int] == name@);
            return true;
        }
        i += 1;
    }
    false
}

impl Json {
    /// A copy of the value.
    pub fn copy(&self) -> (r: Json)
        ensures
            r@ == self@,
        decreases self, 1nat,
    {
        match self {
            Json::Null => Json::Null,
            Json::Bool(b) => Json::Bool(*b),
            Json::Int(n) => Json::Int(*n),
            Json::UInt(n) => Json::UInt(*n),
            Json::Real(s) => Json::Real(s.clone()),
            Json::Str(s) => Json::Str(s.clone()),
            Json::Array(items) => Json::Array(Self::copy_items(items)),
            Json::Object(fields) => Json::Object(Self::copy_fields(fields)),
        }
    }

    /// Copies of the items of `items`, in their order.
    pub fn copy_items(items: &Vec<Json>) -> (out: Vec<Json>)
        ensures
            trees(out@) == trees(items@),
        decreases items, 0nat,
    {
        let mut out: Vec<Json> = Vec::new();
        let mut i: usize = 0;
        while i < items.len()
            invariant
                i <= items.len(),
                out@.len() == i,
                forall|k: int| 0 <= k < i ==> out@[k]@ == items@[k]@,
            decreases items.len() - i,
        {
            out.push(items[i].copy());
            i += 1;
        }
        proof {
            lemma_trees(out@);
            lemma_trees(items@);
        }
        out
    }

    /// Copies of the fields of `fields`, in their order.
    pub fn copy_fields(fields: &Vec<(String, Json)>) -> (out: Vec<(String, Json)>)
        ensures
            tree_fields(out@) == tree_fields(fields@),
        decreases fields, 0nat,
    {
        let mut out: Vec<(String, Json)> = Vec::new();
        let mut i: usize = 0;
        while i < fields.len()
            invariant
                i <= fields.len(),
                out@.len() == i,
                forall|k: int|
                    0 <= k < i ==> out@[k].0@ == fields@[k].0@ && out@[k].1@ == fields@[k].1@,
            decreases fields.len() - i,
        {
            out.push((fields[i].0.clone(), fields[i].1.copy()));
            i += 1;
        }
        proof {
            lemma_tree_fields(out@);
            lemma_tree_fields(fields@);
        }
        out
    }

    /// The value of the first field named `key`, where `self` is an object that has one.
    pub fn get(&self, key: &str) -> (r: Option<&Json>)
        ensures
            match r {
                Some(v) => self@.get(key@) == Some(v@),
                None => self@.get(key@).is_none(),
            },
    {
        match self {
            Json::Object(fields) => {
                proof {
                    lemma_tree_fields(fields@);
                }
                let ghost all = tree_fields(fields@);
                proof {
                    assert(all.skip(0) =~= all);
                }
                let mut i: usize = 0;
                while i < fields.len()
                    invariant
                        i <= fields.len(),
                        *self == Json::Object(*fields),
                        all == tree_fields(fields@),
                        all.len() == fields@.len(),
                        forall|k: int|
                            0 <= k < fields@.len() ==> #[trigger] all[k] == (
                                fields@[k].0@,
                                fields@[k].1@,
                            ),
                        find_field(all, key@) == find_field(all.skip(i as int), key@),
                    decreases fields.len() - i,
                {
                    proof {
                        assert(all.skip(i as int).skip(1) =~= all.skip(i as int + 1));
                    }
                    if str_eq(fields[i].0.as_str(), key) {
                        return Some(&fields[i].1);
                    }
                    i += 1;
                }
                None
            },
            _ => None,
        }
    }

    /// Whether `self` is an object with a field named `key`.
    pub fn has(&self, key: &str) -> (r: bool)
        ensures
            r == self@.has(key@),
    {
        self.get(key).is_some()
    }

    /// The items of an array.
    pub fn as_array(&self) -> (r: Option<&Vec<Json>>)
        ensures
            match r {
                Some(items) => self@.items() == Some(trees(items@)),
                None => self@.items().is_none(),
            },
    {
        match self {
            Json::Array(items) => Some(items),
            _ => None,
        }
    }

    /// The characters of a string.
    pub fn as_str(&self) -> (r: Option<&str>)
        ensures
            match r {
                Some(s) => self@ == JsonTree::Str(s@),
                None => !(self@ is Str),
            },
    {
        match self {
            Json::Str(s) => Some(s.as_str()),
            _ => None,
        }
    }

    /// The value of a boolean.
    pub fn as_bool(&self) -> (r: Option<bool>)
        ensures
            match r {
                Some(b) => self@ == JsonTree::Bool(b),
                None => !(self@ is Bool),
            },
    {
        match self {
            Json::Bool(b) => Some(*b),
            _ => None,
        }
    }

    /// The value of a number that fits `i64`.
    pub fn as_i64(&self) -> (r: Option<i64>)
        ensures
            match r {
                Some(n) => self@ == JsonTree::Int(n),
                None => !(self@ is Int),
            },
    {
        match self {
            Json::Int(n) => Some(*n),
            _ => None,
        }
    }
    /// A copy of an object without its fields named by one of `keys`; a copy of any
    /// other value.
    pub fn without(&self, keys: &Vec<String>) -> (r: Json)
        ensures
            r@ == self@.without(keys.deep_view()),
    {
        match self {
            Json::Object(fields) => {
                proof {
                    lemma_tree_fields(fields@);
                }
                let ghost all = tree_fields(fields@);
                let ghost names = keys.deep_view();
                let mut out: Vec<(String, Json)> = Vec::new();
                let mut i: usize = 0;
                while i < fields.len()
                    invariant
                        i <= fields.len(),
                        names == keys.deep_view(),
                        all == tree_fields(fields@),
                        all.len() == fields@.len(),
                        forall|k: int|
                            0 <= k < fields@.len() ==> #[trigger] all[k] == (
                                fields@[k].0@,
                                fields@[k].1@,
                            ),
                        tree_fields(out@) == drop_fields(all.take(i as int), names),
                    decreases fields.len() - i,
                {
                    proof {
                        assert(all.take(i as int + 1).drop_last() =~= all.take(i as int));
                    }
                    if !name_in(keys, fields[i].0.as_str()) {
                        let f = (fields[i].0.clone(), fields[i].1.copy());
                        proof {
                            lemma_tree_fields_push(out@, f);
                        }
                        out.push(f);
                    }
                    i += 1;
                }
                proof {
                    assert(all.take(fields.len() as int) =~= all);
                }
                Json::Object(out)
            },
            _ => self.copy(),
        }
    }

    /// A copy of an object in which the first field named `key`, if there is one,
    /// comes first; a copy of any other value.
    pub fn with_first(&self, key: &str) -> (r: Json)
        ensures
            r@ == self@.with_first(key@),
    {
        match self.get(key) {
            Some(v) => {
                let mut names: Vec<String> = Vec::new();
                names.push(key.to_string());
                assert(names.deep_view() =~= seq![key@]);
                let rest = self.without(&names);
                match rest {
                    Json::Object(others) => {
                        let mut out: Vec<(String, Json)> = Vec::new();
                        let first = (key.to_string(), v.copy());
                        out.push(first);
                        let ghost head = out@;
                        let ghost tail = others@;
                        let mut others = others;
                        out.append(&mut others);
                        proof {
                            lemma_tree_fields_add(head, tail);
                            assert(tree_fields(head) =~= seq![(key@, v@)]) by {
                                lemma_tree_fields(head);
                            }
                        }
                        Json::Object(out)
                    },
                    _ => self.copy(),
                }
            },
            None => self.copy(),
        }
    }
    /// An object with one field.
    pub fn object1(key: &str, value: Json) -> (r: Json)
        ensures
            r@ == JsonTree::Object(seq![(key@, value@)]),
    {
        let mut fields: Vec<(String, Json)> = Vec::new();
        fields.push((key.to_string(), value));
        proof {
            lemma_tree_fields(fields@);
            assert(tree_fields(fields@) =~= seq![(key@, value@)]);
        }
        Json::Object(fields)
    }

    /// An object with two fields.
    pub fn object2(key0: &str, value0: Json, key1: &str, value1: Json) -> (r: Json)
        ensures
            r@ == JsonTree::Object(seq![(key0@, value0@), (key1@, value1@)]),
    {
        let mut fields: Vec<(String, Json)> = Vec::new();
        fields.push((key0.to_string(), value0));
        fields.push((key1.to_string(), value1));
        proof {
            lemma_tree_fields(fields@);
            assert(tree_fields(fields@) =~= seq![(key0@, value0@), (key1@, value1@)]);
        }
        Json::Object(fields)
    }

    /// An array with one item.
    pub fn array1(item: Json) -> (r: Json)
        ensures
            r@ == JsonTree::Array(seq![item@]),
    {
        let mut items: Vec<Json> = Vec::new();
        items.push(item);
        proof {
            lemma_trees(items@);
            assert(trees(items@) =~= seq![item@]);
        }
        Json::Array(items)
    }

    /// An object without fields.
    pub fn empty_object() -> (r: Json)
        ensures
            r@ == JsonTree::Object(Seq::empty()),
    {
        Json::Object(Vec::new())
    }
}

} // verus!
