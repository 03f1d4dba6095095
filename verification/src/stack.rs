//! The stuck-operation stack: the operations that are under way, each with the
//! time at which it was handed to the database.
//!
//! The entries are kept in a `hashbrown::HashMap`, which Verus does not look into:
//! `stack_entries` names what the map holds, and the few functions that touch the
//! map say over that name what the map's own methods do.

use vstd::prelude::*;

verus! {

/// After how many whole seconds under way an operation counts as stuck.
pub const STUCK_AFTER_SECS: u64 = 10;

/// The operations under way, by record id, with the millisecond at which each began.
#[verifier::external_body]
pub struct OpStack {
    inner: hashbrown::HashMap<String, u64>,
}

/// What a stack holds: for each record id the millisecond at which it began.
pub uninterp spec fn stack_entries(stack: OpStack) -> Map<Seq<char>, u64>;

/// A stack that holds nothing.
pub open spec fn no_entries() -> Map<Seq<char>, u64> {
    Map::empty()
}

/// Whether an operation that began at `began` has been under way for more than
/// ten whole seconds at `now`.
pub open spec fn is_stuck(began: u64, now: u64) -> bool {
    now >= began && (now - began) / 1000 > STUCK_AFTER_SECS
}

/// The entries of `entries` that are not stuck at `now`.
pub open spec fn not_stuck(entries: Map<Seq<char>, u64>, now: u64) -> Map<Seq<char>, u64> {
    entries.restrict(Set::new(|id: Seq<char>| entries.contains_key(id) && !is_stuck(entries[id], now)))
}

/// Whether `ids` are the record ids of the entries of `entries` that are stuck at
/// `now`, each of them once.
pub open spec fn are_stuck(ids: Seq<Seq<char>>, entries: Map<Seq<char>, u64>, now: u64) -> bool {
    &&& forall|i: int|
        0 <= i < ids.len() ==> entries.contains_key(#[trigger] ids[i]) && is_stuck(
            entries[ids[i]],
            now,
        )
    &&& forall|id: Seq<char>| #[trigger]
        entries.contains_key(id) && is_stuck(entries[id], now) ==> ids.contains(id)
    &&& forall|i: int, j: int| 0 <= i < j < ids.len() ==> #[trigger] ids[i] != #[trigger] ids[j]
}

/// Whether `pairs` are the entries of `entries`, each of them once.
pub open spec fn lists(pairs: Seq<(String, u64)>, entries: Map<Seq<char>, u64>) -> bool {
    &&& forall|i: int|
        0 <= i < pairs.len() ==> entries.contains_key((#[trigger] pairs[i]).0@) && entries[pairs[i].0@]
            == pairs[i].1
    &&& forall|id: Seq<char>| #[trigger]
        entries.contains_key(id) ==> exists|i: int| 0 <= i < pairs.len() && (#[trigger] pairs[i]).0@ == id
    &&& forall|i: int, j: int|
        0 <= i < j < pairs.len() ==> (#[trigger] pairs[i]).0@ != (#[trigger] pairs[j]).0@
}

impl OpStack {
    /// Trusted: `HashMap::new` makes a map without entries.
    #[verifier::external_body]
    fn map_new() -> (stack: OpStack)
        ensures
            stack_entries(stack) == no_entries(),
    {
        OpStack { inner: hashbrown::HashMap::new() }
    }

    /// Trusted: `HashMap::insert` sets the value of the key, whether or not the map
    /// held the key, and leaves the other entries as they are.
    #[verifier::external_body]
    fn map_insert(&mut self, id: String, began: u64)
        ensures
            stack_entries(*final(self)) == stack_entries(*old(self)).insert(id@, began),
    {
        self.inner.insert(id, began);
    }

    /// Trusted: `HashMap::remove` takes the entry of the key out, if the map holds
    /// one, and leaves the other entries as they are.
    #[verifier::external_body]
    fn map_remove(&mut self, id: &str)
        ensures
            stack_entries(*final(self)) == stack_entries(*old(self)).remove(id@),
    {
        self.inner.remove(id);
    }

    /// Trusted: `HashMap::iter` hands out each entry of the map once, in an order
    /// that is not fixed.
    #[verifier::external_body]
    fn map_pairs(&self) -> (pairs: Vec<(String, u64)>)
        ensures
            lists(pairs@, stack_entries(*self)),
    {
        self.inner.iter().map(|(id, began)| (id.clone(), *began)).collect()
    }

    /// A stack that holds nothing.
    pub fn new() -> (stack: OpStack)
        ensures
            stack_entries(stack) == no_entries(),
    {
        OpStack::map_new()
    }

    /// Notes that the operation of the record `id` began at `began`.
    pub fn insert(&mut self, id: String, began: u64)
        ensures
            stack_entries(*final(self)) == stack_entries(*old(self)).insert(id@, began),
    {
        self.map_insert(id, began)
    }

    /// Notes that the operation of the record `id` has ended.
    pub fn remove(&mut self, id: &str)
        ensures
            stack_entries(*final(self)) == stack_entries(*old(self)).remove(id@),
    {
        self.map_remove(id)
    }

    /// The entries, each once, in no fixed order.
    pub fn entries(&self) -> (pairs: Vec<(String, u64)>)
        ensures
            lists(pairs@, stack_entries(*self)),
    {
        self.map_pairs()
    }

    /// Takes the operations that are stuck at `now` out of the stack and returns
    /// their record ids, each once, in no fixed order.
    pub fn sweep(&mut self, now: u64) -> (stuck: Vec<String>)
        ensures
            stack_entries(*final(self)) == not_stuck(stack_entries(*old(self)), now),
            are_stuck(stuck.deep_view(), stack_entries(*old(self)), now),
    {
        let pairs = self.map_pairs();
        let ghost before = stack_entries(*self);
        let mut stuck: Vec<String> = Vec::new();
        let ghost mut from: Seq<int> = Seq::empty();
        let mut i: usize = 0;
        while i < pairs.len()
            invariant
                i <= pairs.len(),
                before == stack_entries(*old(self)),
                lists(pairs@, before),
                from.len() == stuck@.len(),
                forall|k: int|
                    0 <= k < stuck@.len() ==> 0 <= #[trigger] from[k] < i && stuck@[k]@
                        == pairs@[from[k]].0@ && is_stuck(pairs@[from[k]].1, now),
                forall|k: int, l: int| 0 <= k < l < from.len() ==> #[trigger] from[k] < #[trigger] from[l],
                forall|p: int|
                    0 <= p < i && is_stuck((#[trigger] pairs@[p]).1, now) ==> exists|k: int|
                        0 <= k < from.len() && #[trigger] from[k] == p,
                stack_entries(*self) =~= before.restrict(
                    Set::new(
                        |id: Seq<char>|
                            before.contains_key(id) && !(is_stuck(before[id], now) && exists|p: int|
                                0 <= p < i && (#[trigger] pairs@[p]).0@ == id),
                    ),
                ),
            decreases pairs.len() - i,
        {
            let began = pairs[i].1;
            if now >= began && (now - began) / 1000 > STUCK_AFTER_SECS {
                self.map_remove(pairs[i].0.as_str());
                stuck.push(pairs[i].0.clone());
                proof {
                    let earlier = from;
                    from = from.push(i as int);
                    assert forall|p: int|
                        0 <= p < i + 1 && is_stuck((#[trigger] pairs@[p]).1, now) implies exists|
                        k: int,
                    | 0 <= k < from.len() && #[trigger] from[k] == p by {
                        if p == i {
                            assert(from[from.len() - 1] == p);
                        } else {
                            let k = choose|k: int| 0 <= k < earlier.len() && #[trigger] earlier[k] == p;
                            assert(from[k] == p);
                        }
                    }
                }
            }
            proof {
                let next = Set::new(
                    |id: Seq<char>|
                        before.contains_key(id) && !(is_stuck(before[id], now) && exists|p: int|
                            0 <= p < i + 1 && (#[trigger] pairs@[p]).0@ == id),
                );
                assert forall|id: Seq<char>| #[trigger]
                    stack_entries(*self).contains_key(id) <==> next.contains(id)
                    && before.contains_key(id) by {
                    if before.contains_key(id) && is_stuck(before[id], now) && pairs@[i as int].0@
                        == id {
                    }
                }
            }
            i += 1;
        }
        proof {
            assert forall|id: Seq<char>| #[trigger]
                stack_entries(*self).contains_key(id) <==> not_stuck(before, now).contains_key(
                    id,
                ) by {
                if before.contains_key(id) && is_stuck(before[id], now) {
                    let p = choose|p: int| 0 <= p < pairs@.len() && (#[trigger] pairs@[p]).0@ == id;
                }
            }
            assert forall|k: int| 0 <= k < stuck@.len() implies before.contains_key(
                (#[trigger] stuck@[k])@,
            ) && is_stuck(before[stuck@[k]@], now) by {
                let p = from[k];
            }
            assert forall|k: int, l: int| 0 <= k < l < stuck@.len() implies (#[trigger] stuck@[k])@ != (
            #[trigger] stuck@[l])@ by {
                assert(from[k] < from[l]);
            }
            let ids = stuck.deep_view();
            assert forall|k: int| 0 <= k < ids.len() implies #[trigger] ids[k] == stuck@[k]@ by {}
            assert forall|id: Seq<char>| #[trigger]
                before.contains_key(id) && is_stuck(before[id], now) implies ids.contains(id) by {
                let p = choose|p: int| 0 <= p < pairs@.len() && (#[trigger] pairs@[p]).0@ == id;
                let k = choose|k: int| 0 <= k < from.len() && #[trigger] from[k] == p;
                assert(ids[k] == id);
            }
            assert forall|k: int| 0 <= k < ids.len() implies before.contains_key(#[trigger] ids[k])
                && is_stuck(before[ids[k]], now) by {
            }
            assert forall|k: int, l: int| 0 <= k < l < ids.len() implies #[trigger] ids[k]
                != #[trigger] ids[l] by {
            }
        }
        stuck
    }
}

} // verus!
