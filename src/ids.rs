//! Canonical ids of derived series: function ids `NAME_n1,n2,..._target`,
//! expression ids rebuilt from the expression tree, and the chart panel an
//! indicator id belongs to.
use vstd::prelude::*;
use crate::ast::{call_m, expr_m, farg_m, ArithmeticOp, Expr, ExprM, FunctionArg, FunctionArgM, FunctionCall};
use crate::lexer::{chars_of, digits_end, digits_end_from, same_text};

verus! {

pub open spec fn sign_len(t: Seq<char>) -> int {
    if t.len() > 0 && t[0] == '-' {
        1
    } else {
        0
    }
}

/// Skips leading zeros of the digits `i..d`, keeping the last digit.
pub open spec fn lead_pos(t: Seq<char>, i: int, d: int) -> int
    decreases d - i,
{
    if i < d - 1 && t[i] == '0' {
        lead_pos(t, i + 1, d)
    } else {
        i
    }
}

/// Drops trailing zeros of the digits `lo..e`.
pub open spec fn trail_pos(t: Seq<char>, e: int, lo: int) -> int
    decreases e - lo,
{
    if e > lo && t[e - 1] == '0' {
        trail_pos(t, e - 1, lo)
    } else {
        e
    }
}

/// A number literal as a floating-point value prints: the sign, the whole
/// part without leading zeros, and the fraction without trailing zeros
/// (and without the point when nothing is left of it).
pub open spec fn canonical_number(t: Seq<char>) -> Seq<char> {
    let s = sign_len(t);
    let d = digits_end(t, s);
    let head = t.subrange(0, s) + t.subrange(lead_pos(t, s, d), d);
    if d < t.len() && t[d] == '.' {
        let f = digits_end(t, d + 1);
        let e = trail_pos(t, f, d + 1);
        if e > d + 1 {
            head + "."@ + t.subrange(d + 1, e)
        } else {
            head
        }
    } else {
        head
    }
}

/// The text of a number literal as its floating-point value prints.
pub fn canonical_number_text(t: &str) -> (r: String)
    ensures
        r@ == canonical_number(t@),
{
    let c = chars_of(t);
    let n = c.len();
    let s: usize = if n > 0 && c[0] == '-' { 1 } else { 0 };
    let d = digits_end_from(&c, s);
    let mut lead = s;
    while d > 0 && lead < d - 1 && c[lead] == '0'
        invariant
            c@ == t@,
            s <= lead <= d,
            d <= n,
            n == c@.len(),
            lead_pos(t@, s as int, d as int) == lead_pos(t@, lead as int, d as int),
        decreases d - lead,
    {
        lead += 1;
    }
    let mut r = String::from_str(t.substring_char(0, s));
    r.append(t.substring_char(lead, d));
    if d < n && c[d] == '.' {
        let f = digits_end_from(&c, d + 1);
        let mut e = f;
        while e > d + 1 && c[e - 1] == '0'
            invariant
                c@ == t@,
                d + 1 <= e <= f,
                f <= n,
                n == c@.len(),
                trail_pos(t@, f as int, d + 1) == trail_pos(t@, e as int, d + 1),
            decreases e,
        {
            e -= 1;
        }
        if e > d + 1 {
            r.append(".");
            r.append(t.substring_char(d + 1, e));
        }
    }
    r
}

/// The number arguments, as their values print, in order.
pub open spec fn number_args(args: Seq<FunctionArgM>) -> Seq<Seq<char>>
    decreases args.len(),
{
    if args.len() == 0 {
        seq![]
    } else {
        match args.last() {
            FunctionArgM::Number(t) => number_args(args.drop_last()).push(canonical_number(t)),
            _ => number_args(args.drop_last()),
        }
    }
}

/// The texts joined with `,` between them.
pub open spec fn join_comma(xs: Seq<Seq<char>>) -> Seq<char>
    decreases xs.len(),
{
    if xs.len() == 0 {
        seq![]
    } else if xs.len() == 1 {
        xs[0]
    } else {
        join_comma(xs.drop_last()) + ","@ + xs.last()
    }
}

pub open spec fn function_id_m(name: Seq<char>, args: Seq<FunctionArgM>, target: Seq<char>) -> Seq<
    char,
> {
    name + "_"@ + join_comma(number_args(args)) + "_"@ + target
}

/// The first identifier argument, if any.
pub open spec fn first_ident(args: Seq<FunctionArgM>) -> Option<Seq<char>>
    decreases args.len(),
{
    if args.len() == 0 {
        None
    } else {
        match args[0] {
            FunctionArgM::Ident(t) => Some(t),
            _ => first_ident(args.drop_first()),
        }
    }
}

/// The instrument a call inside an expression is computed for: the first
/// argument decides; an identifier names itself, any other argument names
/// `item` when one is given and is passed over when none is.
pub open spec fn target_of(args: Seq<FunctionArgM>, item: Option<Seq<char>>) -> Seq<char>
    decreases args.len(),
{
    if args.len() == 0 {
        seq![]
    } else {
        match args[0] {
            FunctionArgM::Ident(t) => t,
            _ => match item {
                Some(x) => x,
                None => target_of(args.drop_first(), item),
            },
        }
    }
}

pub open spec fn op_text(op: ArithmeticOp) -> Seq<char> {
    match op {
        ArithmeticOp::Add => "+"@,
        ArithmeticOp::Sub => "-"@,
        ArithmeticOp::Div => "/"@,
    }
}

/// The id of an expression's series, or `None` when it holds a tuple.
pub open spec fn expr_id_m(e: ExprM, item: Option<Seq<char>>) -> Option<Seq<char>>
    decreases e,
{
    match e {
        ExprM::Number(t) => Some(canonical_number(t)),
        ExprM::Ident(t) => Some(t),
        ExprM::Call(c) => Some(function_id_m(c.name, c.args, target_of(c.args, item))),
        ExprM::Tuple(_) => None,
        ExprM::Group(inner) => match expr_id_m(*inner, item) {
            Some(x) => Some("("@ + x + ")"@),
            None => None,
        },
        ExprM::BinaryOp { left, op, right } => match (expr_id_m(*left, item), expr_id_m(*right, item)) {
            (Some(l), Some(r)) => Some(l + op_text(op) + r),
            _ => None,
        },
    }
}

pub open spec fn opt_view(x: Option<&str>) -> Option<Seq<char>> {
    match x {
        Some(t) => Some(t@),
        None => None,
    }
}

pub open spec fn args_m(args: &Vec<FunctionArg>) -> Seq<FunctionArgM> {
    args@.map_values(|a: FunctionArg| farg_m(&a))
}

/// `NAME_n1,n2,..._target`: the cache id of a function computed for one
/// instrument.
pub fn create_function_id(name: &str, args: &Vec<FunctionArg>, target: &str) -> (r: String)
    ensures
        r@ == function_id_m(name@, args_m(args), target@),
{
    let ghost am = args_m(args);
    let mut numbers = String::new();
    let mut count: usize = 0;
    let mut k: usize = 0;
    assert(am.subrange(0, 0) =~= Seq::<FunctionArgM>::empty());
    while k < args.len()
        invariant
            am == args_m(args),
            k <= args@.len(),
            numbers@ == join_comma(number_args(am.subrange(0, k as int))),
            count == number_args(am.subrange(0, k as int)).len(),
            count <= k,
        decreases args@.len() - k,
    {
        let ghost prev = am.subrange(0, k as int);
        assert(am.subrange(0, k + 1).drop_last() =~= prev);
        assert(am.subrange(0, k + 1).last() == farg_m(&args@[k as int]));
        if let FunctionArg::Number(t) = &args[k] {
            let ghost xs = number_args(prev);
            let text = canonical_number_text(t.as_str());
            assert(number_args(am.subrange(0, k + 1)) == xs.push(text@));
            assert(xs.push(text@).drop_last() =~= xs);
            if count > 0 {
                numbers.append(",");
            } else {
                assert(numbers@ =~= Seq::<char>::empty());
                assert(number_args(prev).push(text@).len() == 1);
                assert(Seq::<char>::empty() + text@ =~= text@);
            }
            numbers.append(text.as_str());
            count += 1;
        }
        k += 1;
    }
    assert(am.subrange(0, args@.len() as int) =~= am);
    let mut r = String::from_str(name);
    r.append("_");
    r.append(numbers.as_str());
    r.append("_");
    r.append(target);
    r
}

/// The id prefix of a function call as a command names it: its id for its
/// first identifier argument, or for the empty target when it has none. The
/// series of the call for an instrument is stored under this prefix followed
/// by the instrument's id.
pub fn call_id(call: &FunctionCall) -> (r: String)
    ensures
        r@ == function_id_m(
            call.name@,
            args_m(&call.args),
            match first_ident(args_m(&call.args)) {
                Some(t) => t,
                None => seq![],
            },
        ),
{
    let ghost am = args_m(&call.args);
    let mut k: usize = 0;
    assert(am.subrange(0, am.len() as int) =~= am);
    while k < call.args.len()
        invariant
            am == args_m(&call.args),
            k <= am.len(),
            first_ident(am) == first_ident(am.subrange(k as int, am.len() as int)),
        decreases am.len() - k,
    {
        let ghost rest = am.subrange(k as int, am.len() as int);
        assert(rest[0] == farg_m(&call.args@[k as int]));
        assert(rest.drop_first() =~= am.subrange(k + 1, am.len() as int));
        if let FunctionArg::Ident(t) = &call.args[k] {
            return create_function_id(call.name.as_str(), &call.args, t.as_str());
        }
        k += 1;
    }
    assert(am.subrange(k as int, am.len() as int) =~= Seq::<FunctionArgM>::empty());
    proof {
        reveal_strlit("");
    }
    create_function_id(call.name.as_str(), &call.args, "")
}

fn call_target(call: &FunctionCall, item: Option<&str>) -> (r: String)
    ensures
        r@ == target_of(args_m(&call.args), opt_view(item)),
{
    let ghost am = args_m(&call.args);
    let mut k: usize = 0;
    assert(am.subrange(0, am.len() as int) =~= am);
    while k < call.args.len()
        invariant
            am == args_m(&call.args),
            k <= am.len(),
            target_of(am, opt_view(item)) == target_of(am.subrange(k as int, am.len() as int), opt_view(item)),
        decreases am.len() - k,
    {
        let ghost rest = am.subrange(k as int, am.len() as int);
        assert(rest[0] == farg_m(&call.args@[k as int]));
        assert(rest.drop_first() =~= am.subrange(k + 1, am.len() as int));
        match &call.args[k] {
            FunctionArg::Ident(t) => {
                return String::from_str(t.as_str());
            },
            _ => {
                if let Some(x) = item {
                    return String::from_str(x);
                }
            },
        }
        k += 1;
    }
    assert(am.subrange(k as int, am.len() as int) =~= Seq::<FunctionArgM>::empty());
    String::new()
}

/// The id under which an expression's series is cached: its text rebuilt
/// from the tree, with each call replaced by its function id for `item`.
/// `None` when the expression holds a tuple, which has no series.
pub fn expr_to_id(e: &Expr, item: Option<&str>) -> (r: Option<String>)
    ensures
        match r {
            Some(t) => expr_id_m(expr_m(e), opt_view(item)) == Some(t@),
            None => expr_id_m(expr_m(e), opt_view(item)) is None,
        },
    decreases e,
{
    match e {
        Expr::Number(t) => Some(canonical_number_text(t.as_str())),
        Expr::Ident(t) => Some(String::from_str(t.as_str())),
        Expr::FunctionCall(c) => {
            let target = call_target(c, item);
            proof {
                assert(call_m(c).args == args_m(&c.args));
            }
            Some(create_function_id(c.name.as_str(), &c.args, target.as_str()))
        },
        Expr::Tuple(_) => None,
        Expr::Group(inner) => match expr_to_id(inner, item) {
            Some(x) => {
                let mut r = String::from_str("(");
                r.append(x.as_str());
                r.append(")");
                Some(r)
            },
            None => None,
        },
        Expr::BinaryOp { left, op, right } => {
            let l = match expr_to_id(left, item) {
                Some(x) => x,
                None => return None,
            };
            let r = match expr_to_id(right, item) {
                Some(x) => x,
                None => return None,
            };
            let mut out = l;
            match op {
                ArithmeticOp::Add => out.append("+"),
                ArithmeticOp::Sub => out.append("-"),
                ArithmeticOp::Div => out.append("/"),
            }
            out.append(r.as_str());
            Some(out)
        },
    }
}

/// The characters before the first `_`, or all of them.
pub open spec fn name_prefix(s: Seq<char>) -> Seq<char>
    decreases s.len(),
{
    if s.len() == 0 || s[0] == '_' {
        seq![]
    } else {
        seq![s[0]] + name_prefix(s.drop_first())
    }
}

/// Indicators bounded to 0..100 are drawn in their own panel (1); every
/// other series overlays the price panel (0).
pub open spec fn panel_of(id: Seq<char>) -> i32 {
    let p = name_prefix(id);
    if p == "RSI"@ || p == "RSIMA"@ || p == "BBWP"@ || p == "BBWPMA"@ {
        1
    } else {
        0
    }
}

pub fn indicator_to_panel_id(id: &str) -> (r: i32)
    ensures
        r == panel_of(id@),
{
    let n = id.unicode_len();
    let mut k: usize = 0;
    assert(id@.subrange(0, n as int) =~= id@);
    assert(id@.subrange(0, 0) + id@ =~= id@);
    while k < n && id.get_char(k) != '_'
        invariant
            n == id@.len(),
            k <= n,
            forall|j: int| 0 <= j < k ==> id@[j] != '_',
            name_prefix(id@) == id@.subrange(0, k as int) + name_prefix(id@.subrange(k as int, n as int)),
        decreases n - k,
    {
        let ghost rest = id@.subrange(k as int, n as int);
        assert(rest.drop_first() =~= id@.subrange(k + 1, n as int));
        assert(id@.subrange(0, k + 1) =~= id@.subrange(0, k as int) + seq![rest[0]]);
        k += 1;
    }
    assert(name_prefix(id@.subrange(k as int, n as int)) =~= Seq::<char>::empty());
    assert(id@.subrange(0, k as int) + Seq::<char>::empty() =~= id@.subrange(0, k as int));
    let prefix = id.substring_char(0, k);
    if same_text(prefix, "RSI") || same_text(prefix, "RSIMA") || same_text(prefix, "BBWP")
        || same_text(prefix, "BBWPMA") {
        1
    } else {
        0
    }
}

} // verus!
