//! Ordering of tracked instruments by a ranking key: a stable sort in either
//! direction, then an optional limit.
use vstd::prelude::*;

verus! {

/// What an instrument is ranked by. Numbers are carried as order-preserving
/// unsigned codes; `Missing` stands for a value that is absent or cannot be
/// compared, and ranks below every other key.
pub enum SortKey {
    Missing,
    Number(u64),
    Text(String),
}

pub enum SortKeyM {
    Missing,
    Number(nat),
    Text(Seq<char>),
}

#[derive(Clone, Copy, PartialEq, Eq, Debug, Structural)]
pub enum Direction {
    Asc,
    Desc,
}

pub open spec fn key_m(k: &SortKey) -> SortKeyM {
    match k {
        SortKey::Missing => SortKeyM::Missing,
        SortKey::Number(n) => SortKeyM::Number(*n as nat),
        SortKey::Text(t) => SortKeyM::Text(t@),
    }
}

pub open spec fn keys_m(keys: &Vec<SortKey>) -> Seq<SortKeyM> {
    keys@.map_values(|k: SortKey| key_m(&k))
}

/// Lexicographic order of character sequences (by code point).
pub open spec fn text_lt(a: Seq<char>, b: Seq<char>) -> bool
    decreases a.len(),
{
    if a.len() == 0 {
        b.len() > 0
    } else if b.len() == 0 {
        false
    } else if a[0] != b[0] {
        a[0] < b[0]
    } else {
        text_lt(a.drop_first(), b.drop_first())
    }
}

/// Strict order of keys: missing, then numbers, then texts.
pub open spec fn key_lt(a: SortKeyM, b: SortKeyM) -> bool {
    match (a, b) {
        (SortKeyM::Missing, SortKeyM::Missing) => false,
        (SortKeyM::Missing, _) => true,
        (SortKeyM::Number(x), SortKeyM::Number(y)) => x < y,
        (SortKeyM::Number(_), SortKeyM::Text(_)) => true,
        (SortKeyM::Text(x), SortKeyM::Text(y)) => text_lt(x, y),
        _ => false,
    }
}

/// Item `i` comes before item `j`: its key comes first in the direction, or
/// the keys are equal and `i` was first.
pub open spec fn before(keys: Seq<SortKeyM>, dir: Direction, i: int, j: int) -> bool {
    let (a, b) = (keys[i], keys[j]);
    if a == b {
        i < j
    } else {
        match dir {
            Direction::Asc => key_lt(a, b),
            Direction::Desc => key_lt(b, a),
        }
    }
}

/// `order` lists distinct indices below `n`.
pub open spec fn distinct_below(order: Seq<usize>, n: nat) -> bool {
    &&& forall|k: int| 0 <= k < order.len() ==> order[k] < n
    &&& forall|k1: int, k2: int| 0 <= k1 < k2 < order.len() ==> order[k1] != order[k2]
}

/// Each item of `order` comes before the next one.
pub open spec fn ranked(keys: Seq<SortKeyM>, dir: Direction, order: Seq<usize>) -> bool {
    forall|k: int|
        0 <= k < order.len() - 1 ==> #[trigger] before(keys, dir, order[k] as int, order[k + 1] as int)
}

proof fn lemma_text_total(a: Seq<char>, b: Seq<char>)
    ensures
        a == b || text_lt(a, b) || text_lt(b, a),
    decreases a.len(),
{
    if a.len() > 0 && b.len() > 0 && a[0] == b[0] {
        lemma_text_total(a.drop_first(), b.drop_first());
        if a.drop_first() == b.drop_first() {
            assert(a =~= seq![a[0]] + a.drop_first());
            assert(b =~= seq![b[0]] + b.drop_first());
        }
    } else if a.len() == 0 && b.len() == 0 {
        assert(a =~= b);
    }
}

proof fn lemma_text_irreflexive(a: Seq<char>)
    ensures
        !text_lt(a, a),
    decreases a.len(),
{
    if a.len() > 0 {
        lemma_text_irreflexive(a.drop_first());
    }
}

proof fn lemma_key_irreflexive(a: SortKeyM)
    ensures
        !key_lt(a, a),
{
    if let SortKeyM::Text(x) = a {
        lemma_text_irreflexive(x);
    }
}

proof fn lemma_key_total(a: SortKeyM, b: SortKeyM)
    ensures
        a == b || key_lt(a, b) || key_lt(b, a),
{
    match (a, b) {
        (SortKeyM::Text(x), SortKeyM::Text(y)) => lemma_text_total(x, y),
        _ => {},
    }
}

proof fn lemma_before_total(keys: Seq<SortKeyM>, dir: Direction, i: int, j: int)
    requires
        i != j,
    ensures
        before(keys, dir, i, j) || before(keys, dir, j, i),
{
    lemma_key_total(keys[i], keys[j]);
}

fn text_less(a: &String, b: &String) -> (r: bool)
    ensures
        r == text_lt(a@, b@),
{
    let sa = a.as_str();
    let sb = b.as_str();
    let na = sa.unicode_len();
    let nb = sb.unicode_len();
    let mut i: usize = 0;
    assert(a@.subrange(0, na as int) =~= a@);
    assert(b@.subrange(0, nb as int) =~= b@);
    while i < na && i < nb
        invariant
            na == a@.len(),
            nb == b@.len(),
            sa@ == a@,
            sb@ == b@,
            i <= na,
            i <= nb,
            text_lt(a@, b@) == text_lt(a@.subrange(i as int, na as int), b@.subrange(i as int, nb as int)),
        decreases na - i,
    {
        let x = sa.get_char(i);
        let y = sb.get_char(i);
        let ghost ra = a@.subrange(i as int, na as int);
        let ghost rb = b@.subrange(i as int, nb as int);
        assert(ra[0] == x && rb[0] == y);
        if x != y {
            return x < y;
        }
        assert(ra.drop_first() =~= a@.subrange(i + 1, na as int));
        assert(rb.drop_first() =~= b@.subrange(i + 1, nb as int));
        i += 1;
    }
    i == na && i < nb
}

fn key_less(a: &SortKey, b: &SortKey) -> (r: bool)
    ensures
        r == key_lt(key_m(a), key_m(b)),
{
    match (a, b) {
        (SortKey::Missing, SortKey::Missing) => false,
        (SortKey::Missing, _) => true,
        (SortKey::Number(x), SortKey::Number(y)) => *x < *y,
        (SortKey::Number(_), SortKey::Text(_)) => true,
        (SortKey::Text(x), SortKey::Text(y)) => text_less(x, y),
        _ => false,
    }
}

fn comes_before(keys: &Vec<SortKey>, dir: Direction, i: usize, j: usize) -> (r: bool)
    requires
        i < keys@.len(),
        j < keys@.len(),
    ensures
        r == before(keys_m(keys), dir, i as int, j as int),
{
    let lt = key_less(&keys[i], &keys[j]);
    let gt = key_less(&keys[j], &keys[i]);
    proof {
        let (a, b) = (key_m(&keys@[i as int]), key_m(&keys@[j as int]));
        assert(keys_m(keys)[i as int] == a && keys_m(keys)[j as int] == b);
        lemma_key_total(a, b);
        lemma_key_irreflexive(a);
    }
    if !lt && !gt {
        i < j
    } else {
        match dir {
            Direction::Asc => lt,
            Direction::Desc => gt,
        }
    }
}

/// The indices of `keys` in ranked order: ascending or descending by key,
/// items with equal keys in the order they came in.
pub fn sort_order(keys: &Vec<SortKey>, dir: Direction) -> (order: Vec<usize>)
    ensures
        order@.len() == keys@.len(),
        distinct_below(order@, keys@.len()),
        ranked(keys_m(keys), dir, order@),
{
    let n = keys.len();
    let mut order: Vec<usize> = Vec::new();
    let mut i: usize = 0;
    while i < n
        invariant
            n == keys@.len(),
            i <= n,
            order@.len() == i,
            distinct_below(order@, i as nat),
            ranked(keys_m(keys), dir, order@),
        decreases n - i,
    {
        // find the insertion point: after every item that comes before `i`
        let mut k: usize = order.len();
        while k > 0 && comes_before(keys, dir, i, order[k - 1])
            invariant
                n == keys@.len(),
                i < n,
                order@.len() == i,
                k <= order@.len(),
                distinct_below(order@, i as nat),
                ranked(keys_m(keys), dir, order@),
                k < order@.len() ==> before(keys_m(keys), dir, i as int, order@[k as int] as int),
            decreases k,
        {
            k -= 1;
        }
        proof {
            if k > 0 {
                lemma_before_total(keys_m(keys), dir, i as int, order@[k - 1] as int);
            }
        }
        let ghost old_order = order@;
        order.insert(k, i);
        proof {
            assert(order@ == old_order.insert(k as int, i));
            assert forall|m: int| 0 <= m < order@.len() - 1 implies #[trigger] before(
                keys_m(keys),
                dir,
                order@[m] as int,
                order@[m + 1] as int,
            ) by {
                if m < k as int - 1 {
                    assert(before(keys_m(keys), dir, old_order[m] as int, old_order[m + 1] as int));
                } else if m > k as int {
                    let j = m - 1;
                    assert(before(keys_m(keys), dir, old_order[j] as int, old_order[j + 1] as int));
                }
            }
        }
        i += 1;
    }
    order
}

/// The first `limit` items of `order`, or all of them when there are fewer.
pub fn take_limit(order: Vec<usize>, limit: Option<usize>) -> (r: Vec<usize>)
    ensures
        r@ == match limit {
            Some(l) => if l < order@.len() {
                order@.subrange(0, l as int)
            } else {
                order@
            },
            None => order@,
        },
{
    let mut order = order;
    if let Some(l) = limit {
        order.truncate(l);
    }
    order
}

} // verus!
