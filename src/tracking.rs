//! The instruments an evaluation tracks: an insertion-ordered list whose ids
//! are unique, so that the list and its set of ids always agree.
use vstd::prelude::*;
use crate::lexer::same_text;
use crate::ranking::distinct_below;

verus! {

#[derive(Clone, Copy, PartialEq, Eq, Debug, Structural)]
pub enum ItemType {
    Stock,
    Index,
    Derived,
}

pub struct TrackedItem {
    pub id: String,
    pub item_type: ItemType,
}

/// A response entry for a tracked id that has no instrument metadata: a
/// derived series, known by its id alone.
pub struct Derived {
    pub id: String,
}

pub open spec fn item_m(t: &TrackedItem) -> (Seq<char>, ItemType) {
    (t.id@, t.item_type)
}

/// The items of `s` whose flag in `keep` is set, in order.
pub open spec fn kept<A>(s: Seq<A>, keep: Seq<bool>) -> Seq<A>
    decreases s.len(),
{
    if s.len() == 0 {
        seq![]
    } else if keep[s.len() - 1] {
        kept(s.drop_last(), keep).push(s.last())
    } else {
        kept(s.drop_last(), keep)
    }
}

pub open spec fn unique_ids(s: Seq<(Seq<char>, ItemType)>) -> bool {
    forall|a: int, b: int| 0 <= a < b < s.len() ==> s[a].0 != s[b].0
}

pub struct TrackedItems {
    items: Vec<TrackedItem>,
}

impl View for TrackedItems {
    type V = Seq<(Seq<char>, ItemType)>;

    closed spec fn view(&self) -> Seq<(Seq<char>, ItemType)> {
        self.items@.map_values(|t: TrackedItem| item_m(&t))
    }
}

impl TrackedItems {
    /// No two items share an id.
    pub open spec fn wf(&self) -> bool {
        unique_ids(self@)
    }

    pub open spec fn has_id(&self, id: Seq<char>) -> bool {
        exists|k: int| 0 <= k < self@.len() && self@[k].0 == id
    }

    pub fn new() -> (r: Self)
        ensures
            r@ == Seq::<(Seq<char>, ItemType)>::empty(),
            r.wf(),
    {
        let r = TrackedItems { items: Vec::new() };
        assert(r@ =~= Seq::<(Seq<char>, ItemType)>::empty());
        r
    }

    pub fn len(&self) -> (n: usize)
        ensures
            n == self@.len(),
    {
        self.items.len()
    }

    pub fn get(&self, i: usize) -> (t: &TrackedItem)
        requires
            i < self@.len(),
        ensures
            item_m(t) == self@[i as int],
    {
        &self.items[i]
    }

    /// Whether an item with this id is tracked.
    pub fn contains(&self, id: &str) -> (r: bool)
        ensures
            r == self.has_id(id@),
    {
        let mut k: usize = 0;
        while k < self.items.len()
            invariant
                k <= self@.len(),
                self@.len() == self.items@.len(),
                forall|j: int| 0 <= j < k ==> self@[j].0 != id@,
            decreases self@.len() - k,
        {
            assert(self@[k as int] == item_m(&self.items@[k as int]));
            if same_text(self.items[k].id.as_str(), id) {
                return true;
            }
            k += 1;
        }
        false
    }

    /// Tracks `id` at the end of the list unless it is tracked already;
    /// says whether it was added.
    pub fn track(&mut self, id: &str, kind: ItemType) -> (added: bool)
        requires
            old(self).wf(),
        ensures
            final(self).wf(),
            added == !old(self).has_id(id@),
            added ==> final(self)@ == old(self)@.push((id@, kind)),
            !added ==> final(self)@ == old(self)@,
    {
        if self.contains(id) {
            return false;
        }
        let ghost before = self@;
        self.items.push(TrackedItem { id: String::from_str(id), item_type: kind });
        assert(self@ =~= before.push((id@, kind)));
        true
    }

    /// The ids, in order.
    pub fn ids(&self) -> (r: Vec<String>)
        ensures
            r@.len() == self@.len(),
            forall|k: int| 0 <= k < r@.len() ==> #[trigger] r@[k]@ == self@[k].0,
    {
        let mut r: Vec<String> = Vec::new();
        let mut k: usize = 0;
        while k < self.items.len()
            invariant
                k <= self@.len(),
                self@.len() == self.items@.len(),
                r@.len() == k,
                forall|j: int| 0 <= j < k ==> #[trigger] r@[j]@ == self@[j].0,
            decreases self@.len() - k,
        {
            assert(self@[k as int] == item_m(&self.items@[k as int]));
            r.push(String::from_str(self.items[k].id.as_str()));
            k += 1;
        }
        r
    }

    /// Keeps the items whose flag is set, in order; drops the others.
    pub fn retain_flags(&mut self, keep: &Vec<bool>)
        requires
            old(self).wf(),
            keep@.len() == old(self)@.len(),
        ensures
            final(self).wf(),
            final(self)@ == kept(old(self)@, keep@),
    {
        let ghost before = self@;
        let mut out: Vec<TrackedItem> = Vec::new();
        let mut k: usize = 0;
        assert(kept(before.subrange(0, 0), keep@) =~= Seq::<(Seq<char>, ItemType)>::empty());
        while k < self.items.len()
            invariant
                before == self@,
                unique_ids(before),
                keep@.len() == before.len(),
                self.items@.len() == before.len(),
                k <= before.len(),
                out@.map_values(|t: TrackedItem| item_m(&t)) == kept(
                    before.subrange(0, k as int),
                    keep@,
                ),
                forall|j: int|
                    0 <= j < out@.len() ==> exists|i: int|
                        0 <= i < k && #[trigger] item_m(&out@[j]) == before[i],
                unique_ids(out@.map_values(|t: TrackedItem| item_m(&t))),
            decreases before.len() - k,
        {
            let ghost prev = out@.map_values(|t: TrackedItem| item_m(&t));
            let ghost prev_out = out@;
            assert(before.subrange(0, k + 1).drop_last() =~= before.subrange(0, k as int));
            assert(before[k as int] == item_m(&self.items@[k as int]));
            if keep[k] {
                let t = TrackedItem { id: self.items[k].id.clone(), item_type: self.items[k].item_type };
                out.push(t);
                assert(out@.map_values(|t: TrackedItem| item_m(&t)) =~= prev.push(before[k as int]));
                assert forall|j: int| 0 <= j < out@.len() implies exists|i: int|
                    0 <= i < k + 1 && #[trigger] item_m(&out@[j]) == before[i] by {
                    if j == out@.len() - 1 {
                        assert(item_m(&out@[j]) == before[k as int]);
                    } else {
                        assert(out@[j] == prev_out[j]);
                    }
                }
            }
            k += 1;
        }
        assert(before.subrange(0, before.len() as int) =~= before);
        self.items = out;
    }

    /// Replaces the list by the items at the positions `order` lists, in
    /// that order.
    pub fn reorder(&mut self, order: &Vec<usize>)
        requires
            old(self).wf(),
            distinct_below(order@, old(self)@.len()),
        ensures
            final(self).wf(),
            final(self)@ == order@.map_values(|j: usize| old(self)@[j as int]),
    {
        let ghost before = self@;
        let mut out: Vec<TrackedItem> = Vec::new();
        let mut k: usize = 0;
        while k < order.len()
            invariant
                before == self@,
                unique_ids(before),
                self.items@.len() == before.len(),
                distinct_below(order@, before.len()),
                k <= order@.len(),
                out@.map_values(|t: TrackedItem| item_m(&t)) =~= order@.subrange(0, k as int).map_values(
                    |j: usize| before[j as int],
                ),
            decreases order@.len() - k,
        {
            let j = order[k];
            assert(before[j as int] == item_m(&self.items@[j as int]));
            let t = TrackedItem { id: self.items[j].id.clone(), item_type: self.items[j].item_type };
            let ghost prev = out@.map_values(|t: TrackedItem| item_m(&t));
            out.push(t);
            assert(out@.map_values(|t: TrackedItem| item_m(&t)) =~= prev.push(before[j as int]));
            assert(order@.subrange(0, k + 1).map_values(|j: usize| before[j as int])
                =~= order@.subrange(0, k as int).map_values(|j: usize| before[j as int]).push(before[j as int]));
            k += 1;
        }
        self.items = out;
        assert(order@.subrange(0, order@.len() as int) =~= order@);
        assert forall|a: int, b: int| 0 <= a < b < self@.len() implies self@[a].0 != self@[b].0 by {
            assert(self@[a] == before[order@[a] as int]);
            assert(self@[b] == before[order@[b] as int]);
            assert(order@[a] != order@[b]);
        }
    }
}

} // verus!
