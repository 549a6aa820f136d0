//! Date alignment of two series for pointwise arithmetic: the inner join of
//! their dates, in ascending order. Where a series repeats a date, its last
//! point for that date is the one that counts.
use vstd::prelude::*;

verus! {

/// Position `i` is the last one of `s` that holds its date.
pub open spec fn last_of_date(s: Seq<i32>, i: int) -> bool {
    &&& 0 <= i < s.len()
    &&& forall|j: int| i < j < s.len() ==> s[j] != s[i]
}

/// One joined point: the date, and the positions of its points in the left
/// and the right series.
pub open spec fn joined_point(left: Seq<i32>, right: Seq<i32>, p: (i32, usize, usize)) -> bool {
    &&& last_of_date(left, p.1 as int)
    &&& last_of_date(right, p.2 as int)
    &&& left[p.1 as int] == p.0
    &&& right[p.2 as int] == p.0
}

proof fn lemma_last_exists(s: Seq<i32>, i: int)
    requires
        0 <= i < s.len(),
    ensures
        exists|j: int| i <= j && last_of_date(s, j) && s[j] == s[i],
    decreases s.len() - i,
{
    if !last_of_date(s, i) {
        let j = choose|j: int| i < j < s.len() && s[j] == s[i];
        lemma_last_exists(s, j);
    }
}

/// Inserting `x` at position `k` of the strictly ascending `before`, where
/// it fits strictly, keeps it ascending and keeps every date it held.
proof fn lemma_sorted_insert(
    left: Seq<i32>,
    right: Seq<i32>,
    before: Seq<(i32, usize, usize)>,
    k: int,
    x: (i32, usize, usize),
)
    requires
        0 <= k <= before.len(),
        joined_point(left, right, x),
        forall|q: int| 0 <= q < before.len() ==> #[trigger] joined_point(left, right, before[q]),
        forall|q: int| 0 <= q < before.len() - 1 ==> #[trigger] before[q].0 < before[q + 1].0,
        k > 0 ==> before[k - 1].0 < x.0,
        k < before.len() ==> x.0 < before[k].0,
    ensures
        ({
            let out = before.insert(k, x);
            &&& forall|q: int| 0 <= q < out.len() ==> #[trigger] joined_point(left, right, out[q])
            &&& forall|q: int| 0 <= q < out.len() - 1 ==> #[trigger] out[q].0 < out[q + 1].0
            &&& out[k] == x
            &&& forall|q: int| 0 <= q < before.len() ==> #[trigger] before[q] == out[if q < k { q } else { q + 1 }]
        }),
{
    let out = before.insert(k, x);
    assert forall|m: int| 0 <= m < out.len() - 1 implies #[trigger] out[m].0 < out[m + 1].0 by {
        if m < k - 1 {
            assert(before[m].0 < before[m + 1].0);
        } else if m > k {
            let j = m - 1;
            assert(before[j].0 < before[j + 1].0);
        }
    }
    assert forall|q: int| 0 <= q < out.len() implies #[trigger] joined_point(left, right, out[q]) by {
        if q < k {
            assert(out[q] == before[q]);
        } else if q > k {
            assert(out[q] == before[q - 1]);
        }
    }
}

/// The last position of `d` in `s`, if any.
fn last_position(s: &Vec<i32>, d: i32) -> (r: Option<usize>)
    ensures
        match r {
            Some(j) => last_of_date(s@, j as int) && s@[j as int] == d,
            None => !s@.contains(d),
        },
{
    let mut k: usize = s.len();
    while k > 0
        invariant
            k <= s@.len(),
            forall|j: int| k <= j < s@.len() ==> s@[j] != d,
        decreases k,
    {
        if s[k - 1] == d {
            return Some(k - 1);
        }
        k -= 1;
    }
    None
}

/// The dates both series hold, ascending, each with the positions of its
/// last point in the left and in the right series.
pub fn join_dates(left: &Vec<i32>, right: &Vec<i32>) -> (r: Vec<(i32, usize, usize)>)
    ensures
        forall|k: int| 0 <= k < r@.len() ==> #[trigger] joined_point(left@, right@, r@[k]),
        forall|k: int| 0 <= k < r@.len() - 1 ==> #[trigger] r@[k].0 < r@[k + 1].0,
        forall|d: i32|
            left@.contains(d) && right@.contains(d) ==> exists|k: int|
                0 <= k < r@.len() && #[trigger] r@[k].0 == d,
{
    // the candidates, in the order of the left series
    let mut cand: Vec<(i32, usize, usize)> = Vec::new();
    let mut i: usize = 0;
    while i < left.len()
        invariant
            i <= left@.len(),
            forall|k: int| 0 <= k < cand@.len() ==> #[trigger] joined_point(left@, right@, cand@[k]),
            forall|k: int| 0 <= k < cand@.len() ==> (cand@[k].1 as int) < i,
            forall|a: int, b: int| 0 <= a < b < cand@.len() ==> cand@[a].1 < cand@[b].1,
            forall|j: int|
                0 <= j < i && last_of_date(left@, j) && right@.contains(left@[j]) ==> exists|k: int|
                    0 <= k < cand@.len() && #[trigger] cand@[k].1 == j,
        decreases left@.len() - i,
    {
        let d = left[i];
        let mut later = false;
        let mut j: usize = i + 1;
        while j < left.len()
            invariant
                i < j <= left@.len(),
                d == left@[i as int],
                later == exists|m: int| i < m < j && left@[m] == d,
            decreases left@.len() - j,
        {
            if left[j] == d {
                later = true;
            }
            j += 1;
        }
        if !later {
            if let Some(rj) = last_position(right, d) {
                let ghost before = cand@;
                cand.push((d, i, rj));
                assert forall|j2: int|
                    0 <= j2 < i + 1 && last_of_date(left@, j2) && right@.contains(
                        left@[j2],
                    ) implies exists|k: int|
                    0 <= k < cand@.len() && #[trigger] cand@[k].1 == j2 by {
                    if j2 < i {
                        let k = choose|k: int| 0 <= k < before.len() && #[trigger] before[k].1 == j2;
                        assert(cand@[k].1 == j2);
                    } else {
                        assert(cand@[cand@.len() - 1].1 == j2);
                    }
                }
            }
        }
        i += 1;
    }
    // insertion sort by date
    let mut out: Vec<(i32, usize, usize)> = Vec::new();
    let mut c: usize = 0;
    while c < cand.len()
        invariant
            c <= cand@.len(),
            forall|k: int| 0 <= k < cand@.len() ==> #[trigger] joined_point(left@, right@, cand@[k]),
            forall|k: int| 0 <= k < out@.len() ==> #[trigger] joined_point(left@, right@, out@[k]),
            forall|k: int| 0 <= k < out@.len() - 1 ==> #[trigger] out@[k].0 < out@[k + 1].0,
            forall|m: int|
                #![trigger cand@[m]]
                0 <= m < c ==> exists|k: int| 0 <= k < out@.len() && #[trigger] out@[k].0 == cand@[m].0,
        decreases cand@.len() - c,
    {
        let x = cand[c];
        assert(joined_point(left@, right@, cand@[c as int]));
        let mut k: usize = out.len();
        while k > 0 && out[k - 1].0 > x.0
            invariant
                k <= out@.len(),
                k < out@.len() ==> x.0 < out@[k as int].0,
            decreases k,
        {
            k -= 1;
        }
        if k > 0 && out[k - 1].0 == x.0 {
            // the date is there already
            assert(out@[k - 1].0 == cand@[c as int].0);
        } else {
            let ghost before = out@;
            out.insert(k, x);
            proof {
                lemma_sorted_insert(left@, right@, before, k as int, x);
                assert forall|m: int| #![trigger cand@[m]] 0 <= m < c + 1 implies exists|q: int|
                    0 <= q < out@.len() && #[trigger] out@[q].0 == cand@[m].0 by {
                    if m < c {
                        let q = choose|q: int| 0 <= q < before.len() && #[trigger] before[q].0 == cand@[m].0;
                        if q < k {
                            assert(out@[q] == before[q]);
                        } else {
                            assert(out@[q + 1] == before[q]);
                        }
                    } else {
                        assert(out@[k as int] == x);
                    }
                }
            }
        }
        c += 1;
    }
    proof {
        assert forall|d: i32| left@.contains(d) && right@.contains(d) implies exists|k: int|
            0 <= k < out@.len() && #[trigger] out@[k].0 == d by {
            let i0 = choose|i0: int| 0 <= i0 < left@.len() && left@[i0] == d;
            lemma_last_exists(left@, i0);
            let j = choose|j: int| i0 <= j && last_of_date(left@, j) && left@[j] == left@[i0];
            let m = choose|m: int| 0 <= m < cand@.len() && #[trigger] cand@[m].1 == j;
            assert(joined_point(left@, right@, cand@[m]));
            assert(cand@[m].0 == d);
        }
    }
    out
}

} // verus!
