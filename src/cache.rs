//! The derived-series cache: one entry per canonical id, written once. A
//! request for an id that is present is answered from the cache, so each
//! (operation, instrument) pair is computed at most once per evaluation.
use vstd::prelude::*;
use crate::lexer::same_text;

verus! {

/// The value stored under `key`, if any.
pub open spec fn lookup<S>(m: Seq<(Seq<char>, S)>, key: Seq<char>) -> Option<S>
    decreases m.len(),
{
    if m.len() == 0 {
        None
    } else if m.last().0 == key {
        Some(m.last().1)
    } else {
        lookup(m.drop_last(), key)
    }
}

/// Storing `value` under `key`: an id that is present keeps its series.
pub open spec fn cache_insert<S>(m: Seq<(Seq<char>, S)>, key: Seq<char>, value: S) -> Seq<
    (Seq<char>, S),
> {
    if lookup(m, key) is Some {
        m
    } else {
        m.push((key, value))
    }
}

/// Once a series is stored under an id, storing again under that id changes
/// nothing, and the id is answered with the first series.
pub proof fn lemma_stored_once<S>(m: Seq<(Seq<char>, S)>, key: Seq<char>, first: S, again: S)
    ensures
        lookup(cache_insert(m, key, first), key) is Some,
        cache_insert(cache_insert(m, key, first), key, again) == cache_insert(m, key, first),
        lookup(m, key) is None ==> lookup(cache_insert(m, key, first), key) == Some(first),
{
}

pub struct SeriesCache<S> {
    entries: Vec<(String, S)>,
}

impl<S> View for SeriesCache<S> {
    type V = Seq<(Seq<char>, S)>;

    closed spec fn view(&self) -> Seq<(Seq<char>, S)> {
        self.entries@.map_values(|e: (String, S)| (e.0@, e.1))
    }
}

impl<S> SeriesCache<S> {
    pub fn new() -> (r: Self)
        ensures
            r@ == Seq::<(Seq<char>, S)>::empty(),
    {
        let r = SeriesCache { entries: Vec::new() };
        assert(r@ =~= Seq::<(Seq<char>, S)>::empty());
        r
    }

    pub fn len(&self) -> (n: usize)
        ensures
            n == self@.len(),
    {
        self.entries.len()
    }

    /// The series stored under `key`.
    pub fn get(&self, key: &str) -> (r: Option<&S>)
        ensures
            match r {
                Some(v) => lookup(self@, key@) == Some(*v),
                None => lookup(self@, key@) is None,
            },
    {
        let ghost m = self@;
        let mut k: usize = self.entries.len();
        assert(m.subrange(0, m.len() as int) =~= m);
        while k > 0
            invariant
                m == self@,
                m.len() == self.entries@.len(),
                k <= m.len(),
                lookup(m, key@) == lookup(m.subrange(0, k as int), key@),
            decreases k,
        {
            let ghost pre = m.subrange(0, k as int);
            assert(pre.drop_last() =~= m.subrange(0, k - 1));
            assert(pre.last() == (self.entries@[k - 1].0@, self.entries@[k - 1].1));
            if same_text(self.entries[k - 1].0.as_str(), key) {
                return Some(&self.entries[k - 1].1);
            }
            k -= 1;
        }
        None
    }

    pub fn contains_key(&self, key: &str) -> (r: bool)
        ensures
            r == lookup(self@, key@) is Some,
    {
        self.get(key).is_some()
    }

    /// Stores `value` under `key` unless the id is present; says whether it
    /// was stored.
    pub fn insert(&mut self, key: &str, value: S) -> (stored: bool)
        ensures
            final(self)@ == cache_insert(old(self)@, key@, value),
            stored == lookup(old(self)@, key@) is None,
    {
        if self.contains_key(key) {
            return false;
        }
        let ghost before = self@;
        self.entries.push((String::from_str(key), value));
        assert(self@ =~= before.push((key@, value)));
        true
    }

    /// The ids, in the order they were stored.
    pub fn keys(&self) -> (r: Vec<String>)
        ensures
            r@.len() == self@.len(),
            forall|k: int| 0 <= k < r@.len() ==> #[trigger] r@[k]@ == self@[k].0,
    {
        let mut r: Vec<String> = Vec::new();
        let mut k: usize = 0;
        while k < self.entries.len()
            invariant
                k <= self@.len(),
                self@.len() == self.entries@.len(),
                r@.len() == k,
                forall|j: int| 0 <= j < k ==> #[trigger] r@[j]@ == self@[j].0,
            decreases self@.len() - k,
        {
            assert(self@[k as int].0 == self.entries@[k as int].0@);
            r.push(String::from_str(self.entries[k].0.as_str()));
            k += 1;
        }
        r
    }
}

} // verus!
