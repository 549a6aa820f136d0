//! The indicator library's dispatch: which indicator a call names and with
//! which parameters, which instruments it is computed for, and the
//! percentile ranks that Bollinger-Band-Width-Percentile is made of.
use vstd::prelude::*;
use crate::ast::{FunctionArg, FunctionArgM};
use crate::commands::{truncate_count, truncated_count};
use crate::ids::args_m;
use crate::lexer::same_text;
use crate::tracking::TrackedItems;

verus! {

#[derive(Clone, Copy, PartialEq, Eq, Debug, Structural)]
pub enum Indicator {
    Rsi { len: u64 },
    RsiMa { rsi_len: u64, ma_len: u64 },
    Ma { len: u64 },
    Ema { len: u64 },
    Wma { len: u64 },
    Bbwp { bbw_len: u64, lookback: u64 },
    BbwpMa { bbw_len: u64, lookback: u64, ma_len: u64 },
}

/// Parameter `i` of a call: the whole part of a number argument there, or
/// `default`.
pub open spec fn param(args: Seq<FunctionArgM>, i: int, default: u64) -> u64 {
    if 0 <= i < args.len() {
        match args[i] {
            FunctionArgM::Number(t) => truncated_count(t) as u64,
            _ => default,
        }
    } else {
        default
    }
}

pub open spec fn indicator_m(name: Seq<char>, a: Seq<FunctionArgM>) -> Option<Indicator> {
    if name == "RSI"@ {
        Some(Indicator::Rsi { len: param(a, 0, 14) })
    } else if name == "RSIMA"@ {
        Some(Indicator::RsiMa { rsi_len: param(a, 0, 14), ma_len: param(a, 1, 14) })
    } else if name == "MA"@ {
        Some(Indicator::Ma { len: param(a, 0, 14) })
    } else if name == "EMA"@ {
        Some(Indicator::Ema { len: param(a, 0, 14) })
    } else if name == "WMA"@ {
        Some(Indicator::Wma { len: param(a, 0, 14) })
    } else if name == "BBWP"@ {
        Some(Indicator::Bbwp { bbw_len: param(a, 0, 13), lookback: param(a, 1, 252) })
    } else if name == "BBWPMA"@ {
        Some(
            Indicator::BbwpMa {
                bbw_len: param(a, 0, 13),
                lookback: param(a, 1, 252),
                ma_len: param(a, 2, 14),
            },
        )
    } else {
        None
    }
}

fn param_of(args: &Vec<FunctionArg>, i: usize, default: u64) -> (r: u64)
    ensures
        r == param(args_m(args), i as int, default),
{
    if i < args.len() {
        assert(args_m(args)[i as int] == crate::ast::farg_m(&args@[i as int]));
        match &args[i] {
            FunctionArg::Number(t) => truncate_count(t.as_str()),
            _ => default,
        }
    } else {
        default
    }
}

/// The indicator a call names, with its parameters; `None` for a name the
/// library does not know.
pub fn indicator_of(name: &str, args: &Vec<FunctionArg>) -> (r: Option<Indicator>)
    ensures
        r == indicator_m(name@, args_m(args)),
{
    if same_text(name, "RSI") {
        Some(Indicator::Rsi { len: param_of(args, 0, 14) })
    } else if same_text(name, "RSIMA") {
        Some(Indicator::RsiMa { rsi_len: param_of(args, 0, 14), ma_len: param_of(args, 1, 14) })
    } else if same_text(name, "MA") {
        Some(Indicator::Ma { len: param_of(args, 0, 14) })
    } else if same_text(name, "EMA") {
        Some(Indicator::Ema { len: param_of(args, 0, 14) })
    } else if same_text(name, "WMA") {
        Some(Indicator::Wma { len: param_of(args, 0, 14) })
    } else if same_text(name, "BBWP") {
        Some(Indicator::Bbwp { bbw_len: param_of(args, 0, 13), lookback: param_of(args, 1, 252) })
    } else if same_text(name, "BBWPMA") {
        Some(
            Indicator::BbwpMa {
                bbw_len: param_of(args, 0, 13),
                lookback: param_of(args, 1, 252),
                ma_len: param_of(args, 2, 14),
            },
        )
    } else {
        None
    }
}

/// The identifier arguments of a call, in order.
pub open spec fn ident_args(a: Seq<FunctionArgM>) -> Seq<Seq<char>>
    decreases a.len(),
{
    if a.len() == 0 {
        seq![]
    } else {
        match a.last() {
            FunctionArgM::Ident(t) => ident_args(a.drop_last()).push(t),
            _ => ident_args(a.drop_last()),
        }
    }
}

/// The instruments a call is computed for: those its identifier arguments
/// name, or else every tracked instrument, in order.
pub fn function_targets(args: &Vec<FunctionArg>, items: &TrackedItems) -> (r: Vec<String>)
    ensures
        ident_args(args_m(args)).len() > 0 ==> r@.map_values(|s: String| s@) == ident_args(
            args_m(args),
        ),
        ident_args(args_m(args)).len() == 0 ==> r@.map_values(|s: String| s@)
            == items@.map_values(|t: (Seq<char>, crate::tracking::ItemType)| t.0),
{
    let ghost am = args_m(args);
    let mut r: Vec<String> = Vec::new();
    let mut k: usize = 0;
    assert(am.subrange(0, 0) =~= Seq::<FunctionArgM>::empty());
    while k < args.len()
        invariant
            am == args_m(args),
            k <= am.len(),
            r@.map_values(|s: String| s@) == ident_args(am.subrange(0, k as int)),
        decreases am.len() - k,
    {
        let ghost pre = am.subrange(0, k + 1);
        assert(pre.drop_last() =~= am.subrange(0, k as int));
        assert(pre.last() == crate::ast::farg_m(&args@[k as int]));
        let ghost before = r@.map_values(|s: String| s@);
        if let FunctionArg::Ident(t) = &args[k] {
            r.push(String::from_str(t.as_str()));
            assert(r@.map_values(|s: String| s@) =~= before.push(t@));
        }
        k += 1;
    }
    assert(am.subrange(0, am.len() as int) =~= am);
    if r.len() > 0 {
        return r;
    }
    let ids = items.ids();
    assert(ids@.map_values(|s: String| s@) =~= items@.map_values(
        |t: (Seq<char>, crate::tracking::ItemType)| t.0,
    ));
    ids
}

/// How many of the `w` samples ending at `t` are at most sample `t`.
pub open spec fn count_at_most(keys: Seq<u64>, t: int, w: nat) -> nat
    decreases w,
{
    if w == 0 {
        0
    } else {
        count_at_most(keys, t, (w - 1) as nat) + if keys[t - (w - 1)] <= keys[t] {
            1nat
        } else {
            0nat
        }
    }
}

/// The trailing window at sample `t`: `lookback` samples (at least one),
/// fewer near the start.
pub open spec fn window_at(t: int, lookback: nat) -> nat {
    let lb = if lookback == 0 { 1 } else { lookback };
    if lb < t + 1 { lb } else { (t + 1) as nat }
}

proof fn lemma_count_bounds(keys: Seq<u64>, t: int, w: nat)
    requires
        0 <= t < keys.len(),
        w <= t + 1,
    ensures
        count_at_most(keys, t, w) <= w,
        w >= 1 ==> count_at_most(keys, t, w) >= 1,
    decreases w,
{
    if w > 0 {
        lemma_count_bounds(keys, t, (w - 1) as nat);
    }
}

/// For every sample after the first, the number of samples in its trailing
/// window that are at most it, and the window's size: the percentile rank
/// of the sample is `count / window · 100`. Samples are order-preserving
/// codes of the band widths.
pub fn percentile_ranks(keys: &Vec<u64>, lookback: usize) -> (r: Vec<(usize, usize)>)
    ensures
        keys@.len() == 0 ==> r@.len() == 0,
        keys@.len() > 0 ==> r@.len() == keys@.len() - 1,
        forall|i: int|
            0 <= i < r@.len() ==> {
                let t = i + 1;
                &&& #[trigger] r@[i].1 == window_at(t, lookback as nat)
                &&& r@[i].0 == count_at_most(keys@, t, window_at(t, lookback as nat))
            },
{
    let n = keys.len();
    let lb: usize = if lookback == 0 { 1 } else { lookback };
    let mut r: Vec<(usize, usize)> = Vec::new();
    if n == 0 {
        return r;
    }
    let mut t: usize = 1;
    while t < n
        invariant
            n == keys@.len(),
            lb == (if lookback == 0 { 1 } else { lookback }),
            1 <= t <= n,
            r@.len() == t - 1,
            forall|i: int|
                0 <= i < r@.len() ==> {
                    let t2 = i + 1;
                    &&& #[trigger] r@[i].1 == window_at(t2, lookback as nat)
                    &&& r@[i].0 == count_at_most(keys@, t2, window_at(t2, lookback as nat))
                },
        decreases n - t,
    {
        let w: usize = if lb < t + 1 { lb } else { t + 1 };
        let mut count: usize = 0;
        let mut k: usize = 0;
        while k < w
            invariant
                n == keys@.len(),
                1 <= t < n,
                w <= t + 1,
                k <= w,
                count == count_at_most(keys@, t as int, k as nat),
                count <= k,
            decreases w - k,
        {
            if keys[t - k] <= keys[t] {
                count += 1;
            }
            k += 1;
        }
        r.push((count, w));
        t += 1;
    }
    r
}

/// Every percentile count lies between one and the size of its window,
/// which is at least one.
pub proof fn lemma_percentile_bounds(keys: Seq<u64>, t: int, lookback: nat)
    requires
        1 <= t < keys.len(),
    ensures
        window_at(t, lookback) >= 1,
        1 <= count_at_most(keys, t, window_at(t, lookback)) <= window_at(t, lookback),
{
    lemma_count_bounds(keys, t, window_at(t, lookback));
}

} // verus!
