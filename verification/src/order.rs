//! The dictionary order of texts is a total order, and sorting by it gives the
//! one sorted arrangement of the texts: this is what makes the key of a shape
//! independent of the order in which a predicate names its fields.

use crate::json::JsonTree;
use crate::op_row::Op;
use crate::shape::{paths_of, predicate, shape_key};
use crate::strings::{inserted, lex_le, sorted_texts};
use vstd::prelude::*;
use vstd::relations::{sorted_by, total_ordering};
use vstd::seq_lib::{lemma_sorted_unique, to_multiset_build};

verus! {

/// The dictionary order as a relation.
pub open spec fn by_dictionary() -> spec_fn(Seq<char>, Seq<char>) -> bool {
    |a: Seq<char>, b: Seq<char>| lex_le(a, b)
}

/// Every text comes before or is itself.
pub proof fn lemma_lex_le_reflexive(a: Seq<char>)
    ensures
        lex_le(a, a),
    decreases a.len(),
{
    if a.len() > 0 {
        lemma_lex_le_reflexive(a.skip(1));
    }
}

/// Two texts of which each comes before or is the other are one text.
pub proof fn lemma_lex_le_antisymmetric(a: Seq<char>, b: Seq<char>)
    requires
        lex_le(a, b),
        lex_le(b, a),
    ensures
        a == b,
    decreases a.len(),
{
    if a.len() > 0 {
        lemma_lex_le_antisymmetric(a.skip(1), b.skip(1));
        assert(a =~= seq![a[0]] + a.skip(1));
    }
}

/// The dictionary order passes on: what comes before a text comes before all that
/// the text comes before.
pub proof fn lemma_lex_le_transitive(a: Seq<char>, b: Seq<char>, c: Seq<char>)
    requires
        lex_le(a, b),
        lex_le(b, c),
    ensures
        lex_le(a, c),
    decreases a.len(),
{
    if a.len() > 0 {
        if a[0] == b[0] && b[0] == c[0] {
            lemma_lex_le_transitive(a.skip(1), b.skip(1), c.skip(1));
        }
    }
}

/// Of two texts one comes before or is the other.
pub proof fn lemma_lex_le_total(a: Seq<char>, b: Seq<char>)
    ensures
        lex_le(a, b) || lex_le(b, a),
    decreases a.len(),
{
    if a.len() > 0 && b.len() > 0 && a[0] == b[0] {
        lemma_lex_le_total(a.skip(1), b.skip(1));
    }
}

/// The dictionary order is a total order.
pub proof fn lemma_dictionary_order()
    ensures
        total_ordering(by_dictionary()),
{
    let r = by_dictionary();
    assert forall|a: Seq<char>| #[trigger] r(a, a) by {
        lemma_lex_le_reflexive(a);
    }
    assert forall|a: Seq<char>, b: Seq<char>| #[trigger] r(a, b) && #[trigger] r(b, a) implies a
        == b by {
        lemma_lex_le_antisymmetric(a, b);
    }
    assert forall|a: Seq<char>, b: Seq<char>, c: Seq<char>| #[trigger]
        r(a, b) && #[trigger] r(b, c) implies r(a, c) by {
        lemma_lex_le_transitive(a, b, c);
    }
    assert forall|a: Seq<char>, b: Seq<char>| #[trigger] r(a, b) || #[trigger] r(b, a) by {
        lemma_lex_le_total(a, b);
    }
}

/// Putting a text into sorted texts leaves them sorted, and adds the text and
/// nothing else.
pub proof fn lemma_inserted(sorted: Seq<Seq<char>>, text: Seq<char>)
    requires
        sorted_by(sorted, by_dictionary()),
    ensures
        sorted_by(inserted(sorted, text), by_dictionary()),
        inserted(sorted, text).to_multiset() == sorted.to_multiset().insert(text),
        inserted(sorted, text).len() == sorted.len() + 1,
    decreases sorted.len(),
{
    let r = by_dictionary();
    let out = inserted(sorted, text);
    if sorted.len() == 0 {
        assert(sorted =~= Seq::<Seq<char>>::empty());
        to_multiset_build(sorted, text);
    } else if lex_le(sorted.last(), text) {
        to_multiset_build(sorted, text);
        assert forall|i: int, j: int| 0 <= i < j < out.len() implies #[trigger] r(
            out[i],
            out[j],
        ) by {
            if j == out.len() - 1 && i < sorted.len() - 1 {
                assert(r(sorted[i], sorted[sorted.len() - 1]));
                lemma_lex_le_transitive(sorted[i], sorted.last(), text);
            }
        }
    } else {
        let init = sorted.drop_last();
        assert forall|i: int, j: int| 0 <= i < j < init.len() implies #[trigger] r(
            init[i],
            init[j],
        ) by {
        }
        lemma_inserted(init, text);
        let mid = inserted(init, text);
        to_multiset_build(mid, sorted.last());
        to_multiset_build(init, sorted.last());
        assert(init.push(sorted.last()) =~= sorted);
        lemma_lex_le_total(sorted.last(), text);
        assert forall|i: int, j: int| 0 <= i < j < out.len() implies #[trigger] r(
            out[i],
            out[j],
        ) by {
            if j == out.len() - 1 {
                // Every text of `mid` is `text` or a text of `init`.
                assert(mid.to_multiset().count(mid[i]) > 0) by {
                    vstd::seq_lib::to_multiset_contains(mid, mid[i]);
                }
                if mid[i] != text {
                    vstd::seq_lib::to_multiset_contains(init, mid[i]);
                }
            }
        }
    }
}

/// Sorting gives sorted texts, which are the texts that were given and no others.
pub proof fn lemma_sorted_texts(texts: Seq<Seq<char>>)
    ensures
        sorted_by(sorted_texts(texts), by_dictionary()),
        sorted_texts(texts).to_multiset() == texts.to_multiset(),
        sorted_texts(texts).len() == texts.len(),
    decreases texts.len(),
{
    if texts.len() == 0 {
        assert(sorted_texts(texts) =~= texts);
    } else {
        lemma_sorted_texts(texts.drop_last());
        lemma_inserted(sorted_texts(texts.drop_last()), texts.last());
        to_multiset_build(texts.drop_last(), texts.last());
        assert(texts.drop_last().push(texts.last()) =~= texts);
    }
}

/// Sorting does not depend on the order in which the texts are given.
pub proof fn lemma_sorting_ignores_order(a: Seq<Seq<char>>, b: Seq<Seq<char>>)
    requires
        a.to_multiset() == b.to_multiset(),
    ensures
        sorted_texts(a) == sorted_texts(b),
{
    lemma_sorted_texts(a);
    lemma_sorted_texts(b);
    lemma_dictionary_order();
    lemma_sorted_unique(sorted_texts(a), sorted_texts(b), by_dictionary());
}

/// Two operations of one kind whose predicates name the same fields, in whatever
/// order and with whatever values, have the same key.
pub proof fn lemma_shape_key_ignores_order(op: Op, cmd_a: JsonTree, cmd_b: JsonTree)
    requires
        paths_of(Seq::empty(), predicate(op, cmd_a)).to_multiset() == paths_of(
            Seq::empty(),
            predicate(op, cmd_b),
        ).to_multiset(),
    ensures
        shape_key(op, cmd_a) == shape_key(op, cmd_b),
{
    lemma_sorting_ignores_order(
        paths_of(Seq::empty(), predicate(op, cmd_a)),
        paths_of(Seq::empty(), predicate(op, cmd_b)),
    );
}

} // verus!
