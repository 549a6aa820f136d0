//! Which charts the response carries for an instrument: every cached series
//! whose id contains the instrument's id, typed and given a panel, plus a
//! volume chart for equities when no rebase is active.
use vstd::prelude::*;
use crate::ids::{indicator_to_panel_id, panel_of};
use crate::lexer::{chars_of, text_has_char};

verus! {

#[derive(Clone, Copy, PartialEq, Eq, Debug, Structural)]
pub enum ChartType {
    Price,
    Indicator,
    Volume,
    Rebase,
}

/// A chart of the cached series at position `key` of the id list.
#[derive(Clone, Copy, PartialEq, Eq, Debug, Structural)]
pub struct ChartSpec {
    pub key: usize,
    pub chart_type: ChartType,
    pub panel_id: i32,
}

/// `needle` occurs in `hay` as a contiguous run.
pub open spec fn occurs_in(needle: Seq<char>, hay: Seq<char>) -> bool {
    exists|i: int|
        0 <= i && i + needle.len() <= hay.len() && #[trigger] hay.subrange(i, i + needle.len())
            == needle
}

/// The chart of a series id: ids with `_` are indicators, with the panel of
/// their name; the others are prices, in panel 0. A rebase turns every chart
/// into a rebase chart.
pub open spec fn chart_of(key: int, id: Seq<char>, rebase: bool) -> ChartSpec {
    let indicator = id.contains('_');
    ChartSpec {
        key: key as usize,
        chart_type: if rebase {
            ChartType::Rebase
        } else if indicator {
            ChartType::Indicator
        } else {
            ChartType::Price
        },
        panel_id: if indicator {
            panel_of(id)
        } else {
            0
        },
    }
}

/// The charts of `item` among the ids `keys`, in the order of `keys`.
pub open spec fn charts_for(item: Seq<char>, keys: Seq<Seq<char>>, rebase: bool) -> Seq<ChartSpec>
    decreases keys.len(),
{
    if keys.len() == 0 {
        seq![]
    } else {
        let rest = charts_for(item, keys.drop_last(), rebase);
        if occurs_in(item, keys.last()) {
            rest.push(chart_of(keys.len() - 1, keys.last(), rebase))
        } else {
            rest
        }
    }
}

fn occurs(needle: &Vec<char>, hay: &Vec<char>) -> (r: bool)
    ensures
        r == occurs_in(needle@, hay@),
{
    let n = needle.len();
    let h = hay.len();
    if n > h {
        return false;
    }
    let mut i: usize = 0;
    while i <= h - n
        invariant
            n == needle@.len(),
            h == hay@.len(),
            n <= h,
            i <= h - n + 1,
            forall|j: int| 0 <= j < i ==> #[trigger] hay@.subrange(j, j + n) != needle@,
        decreases h - n + 1 - i,
    {
        let mut k: usize = 0;
        while k < n && hay[i + k] == needle[k]
            invariant
                n == needle@.len(),
                h == hay@.len(),
                i + n <= h,
                k <= n,
                forall|m: int| 0 <= m < k ==> hay@[i + m] == needle@[m],
            decreases n - k,
        {
            k += 1;
        }
        if k == n {
            assert(hay@.subrange(i as int, i + n) =~= needle@);
            return true;
        }
        assert(hay@.subrange(i as int, i + n)[k as int] != needle@[k as int]);
        i += 1;
    }
    false
}

/// The charts of the instrument `item`: one per id in `keys` that contains
/// `item`.
pub fn chart_specs(item: &str, keys: &Vec<String>, rebase: bool) -> (r: Vec<ChartSpec>)
    ensures
        r@ == charts_for(item@, keys@.map_values(|k: String| k@), rebase),
{
    let ghost km = keys@.map_values(|k: String| k@);
    let needle = chars_of(item);
    let mut r: Vec<ChartSpec> = Vec::new();
    let mut k: usize = 0;
    assert(km.subrange(0, 0) =~= Seq::<Seq<char>>::empty());
    while k < keys.len()
        invariant
            km == keys@.map_values(|k: String| k@),
            needle@ == item@,
            k <= km.len(),
            r@ == charts_for(item@, km.subrange(0, k as int), rebase),
        decreases km.len() - k,
    {
        let ghost pre = km.subrange(0, k + 1);
        assert(pre.drop_last() =~= km.subrange(0, k as int));
        assert(pre.last() == keys@[k as int]@);
        let key = keys[k].as_str();
        let hay = chars_of(key);
        if occurs(&needle, &hay) {
            let indicator = text_has_char(key, '_');
            let chart_type = if rebase {
                ChartType::Rebase
            } else if indicator {
                ChartType::Indicator
            } else {
                ChartType::Price
            };
            let panel_id = if indicator {
                indicator_to_panel_id(key)
            } else {
                0
            };
            r.push(ChartSpec { key: k, chart_type, panel_id });
        }
        k += 1;
    }
    assert(km.subrange(0, km.len() as int) =~= km);
    r
}

/// Equities (ids of four characters) get a volume chart, unless a rebase
/// is active.
pub fn wants_volume(item: &str, rebase: bool) -> (r: bool)
    ensures
        r == (item@.len() == 4 && !rebase),
{
    item.unicode_len() == 4 && !rebase
}

} // verus!
