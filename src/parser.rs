//! The executable parser. Each function is proved to return exactly what the
//! grammar rule of the same name in `grammar` gives, mapped through the
//! model functions of `ast`.
use vstd::prelude::*;
use crate::ast::{
    call_m, command_m, expr_m, farg_m, logical_m, named_arg_m, operand_m, program_m, value_m,
    values_m, ArithmeticOp, CallM, Command, CommandKind, CommandM, Comparator, Expr, FunctionArg,
    FunctionArgM, FunctionCall, Keyword, LogicalExpr, LogicalOp, NamedArg, NamedArgM, Operand,
    Program, Value, ValueM,
};
use crate::grammar::{
    command_kind_of, g_arg, g_args_rest, g_arith, g_arith_op, g_arith_rest, g_atom, g_call,
    g_cmp, g_command, g_comparison, g_farg, g_fargs_rest, g_inner, g_list, g_logic, g_logic_op,
    g_logic_rest, g_operand, g_program_from, g_term, g_tuple, g_value, g_values_rest, parse_model,
    span, ParseError, NESTING_LIMIT,
};
use crate::lexer::{
    amp_end_from, char_is_at, chars_of, scan_date, scan_duration, scan_ident, scan_number,
    scan_string, skip_ws_from, span_is,
};

verus! {

/// The executable result `r` and the model result `m` agree through `f`.
pub open spec fn same<T, M>(r: Option<(T, usize)>, m: Option<(M, int)>, f: spec_fn(T) -> M) -> bool {
    match r {
        Some((x, e)) => m == Some((f(x), e as int)),
        None => m is None,
    }
}

pub open spec fn ends_within<T>(r: Option<(T, usize)>, p: usize, n: nat) -> bool {
    match r {
        Some((_, e)) => p <= e <= n,
        None => true,
    }
}

fn text(t: &str, a: usize, b: usize) -> (r: String)
    requires
        a <= b <= t@.len(),
    ensures
        r@ == t@.subrange(a as int, b as int),
{
    String::from_str(t.substring_char(a, b))
}

fn p_farg(t: &str, s: &Vec<char>, p: usize) -> (r: Option<(FunctionArg, usize)>)
    requires
        s@ == t@,
        p <= s@.len(),
    ensures
        same(r, g_farg(s@, p as int), |a: FunctionArg| farg_m(&a)),
        ends_within(r, p, s@.len()),
{
    if let Some(e) = scan_number(s, p) {
        return Some((FunctionArg::Number(text(t, p, e)), skip_ws_from(s, e)));
    }
    if let Some(q) = scan_string(s, p) {
        return Some((FunctionArg::String(text(t, p + 1, q)), skip_ws_from(s, q + 1)));
    }
    if let Some(e) = scan_ident(s, p) {
        return Some((FunctionArg::Ident(text(t, p, e)), skip_ws_from(s, e)));
    }
    None
}

fn p_call(t: &str, s: &Vec<char>, p: usize) -> (r: Option<(FunctionCall, usize)>)
    requires
        s@ == t@,
        p <= s@.len(),
    ensures
        same(r, g_call(s@, p as int), |c: FunctionCall| call_m(&c)),
        ends_within(r, p, s@.len()),
{
    let ie = match scan_ident(s, p) {
        Some(ie) => ie,
        None => return None,
    };
    let q = skip_ws_from(s, ie);
    if !char_is_at(s, q, '(') {
        return None;
    }
    let r = skip_ws_from(s, q + 1);
    let name = text(t, p, ie);
    if char_is_at(s, r, ')') {
        let c = FunctionCall { name, args: Vec::new() };
        proof {
            assert(call_m(&c).args =~= Seq::<FunctionArgM>::empty());
        }
        return Some((c, skip_ws_from(s, r + 1)));
    }
    let (a, e) = match p_farg(t, s, r) {
        Some(x) => x,
        None => return None,
    };
    let ghost target = g_fargs_rest(s@, e as int, seq![farg_m(&a)]);
    let mut args: Vec<FunctionArg> = Vec::new();
    args.push(a);
    let mut pos = e;
    proof {
        assert(args@.map_values(|x: FunctionArg| farg_m(&x)) =~= seq![farg_m(&args@[0])]);
    }
    loop
        invariant
            s@ == t@,
            p <= pos <= s@.len(),
            g_call(s@, p as int) == (match target {
                Some((v, f)) => Some((CallM { name: name@, args: v }, f)),
                None => None,
            }),
            g_fargs_rest(s@, pos as int, args@.map_values(|x: FunctionArg| farg_m(&x))) == target,
            name@ == span(s@, p as int, ie as int),
        decreases s@.len() - pos,
    {
        if char_is_at(s, pos, ')') {
            let end = skip_ws_from(s, pos + 1);
            return Some((FunctionCall { name, args }, end));
        } else if char_is_at(s, pos, ',') {
            let q2 = skip_ws_from(s, pos + 1);
            match p_farg(t, s, q2) {
                Some((a2, e2)) => {
                    let ghost old_args = args@;
                    args.push(a2);
                    proof {
                        assert(args@.map_values(|x: FunctionArg| farg_m(&x)) =~= old_args.map_values(
                            |x: FunctionArg| farg_m(&x),
                        ).push(farg_m(&a2)));
                    }
                    pos = e2;
                },
                None => return None,
            }
        } else {
            return None;
        }
    }
}

fn p_arith_op(s: &Vec<char>, p: usize) -> (r: Option<ArithmeticOp>)
    ensures
        r == g_arith_op(s@, p as int),
        r is Some ==> p < s@.len(),
        s@.len() == s.len(),
{
    if char_is_at(s, p, '+') {
        Some(ArithmeticOp::Add)
    } else if char_is_at(s, p, '-') {
        Some(ArithmeticOp::Sub)
    } else if char_is_at(s, p, '/') {
        Some(ArithmeticOp::Div)
    } else {
        None
    }
}

fn p_cmp(s: &Vec<char>, p: usize) -> (r: Option<(Comparator, usize)>)
    requires
        p <= s@.len(),
    ensures
        same(r, g_cmp(s@, p as int), |c: Comparator| c),
        ends_within(r, p, s@.len()),
{
    if char_is_at(s, p, '>') {
        if char_is_at(s, p + 1, '=') {
            Some((Comparator::Gte, skip_ws_from(s, p + 2)))
        } else {
            Some((Comparator::Gt, skip_ws_from(s, p + 1)))
        }
    } else if char_is_at(s, p, '<') {
        if char_is_at(s, p + 1, '=') {
            Some((Comparator::Lte, skip_ws_from(s, p + 2)))
        } else {
            Some((Comparator::Lt, skip_ws_from(s, p + 1)))
        }
    } else if char_is_at(s, p, '=') && char_is_at(s, p + 1, '=') {
        Some((Comparator::Eq, skip_ws_from(s, p + 2)))
    } else if char_is_at(s, p, '!') && char_is_at(s, p + 1, '=') {
        Some((Comparator::Neq, skip_ws_from(s, p + 2)))
    } else {
        None
    }
}

fn p_logic_op(s: &Vec<char>, p: usize) -> (r: Option<(LogicalOp, usize)>)
    requires
        p <= s@.len(),
    ensures
        same(r, g_logic_op(s@, p as int), |o: LogicalOp| o),
        r matches Some((_, e)) ==> p < e <= s@.len(),
{
    match scan_ident(s, p) {
        Some(e) => if span_is(s, p, e, "AND") {
            Some((LogicalOp::And, skip_ws_from(s, e)))
        } else if span_is(s, p, e, "OR") {
            Some((LogicalOp::Or, skip_ws_from(s, e)))
        } else {
            None
        },
        None => None,
    }
}

fn p_term(t: &str, s: &Vec<char>, p: usize, fuel: usize) -> (r: Option<(Expr, usize)>)
    requires
        s@ == t@,
        p <= s@.len(),
    ensures
        same(r, g_term(s@, p as int, fuel as nat), |x: Expr| expr_m(&x)),
        ends_within(r, p, s@.len()),
    decreases fuel,
{
    if fuel == 0 {
        return None;
    }
    if char_is_at(s, p, '(') {
        let q = skip_ws_from(s, p + 1);
        if let Some((e, r)) = p_arith(t, s, q, fuel - 1) {
            if char_is_at(s, r, ')') {
                return Some((Expr::Group(Box::new(e)), skip_ws_from(s, r + 1)));
            }
        }
        return match p_tuple(t, s, p, fuel - 1) {
            Some((vs, r)) => Some((Expr::Tuple(vs), r)),
            None => None,
        };
    }
    if let Some((c, e)) = p_call(t, s, p) {
        return Some((Expr::FunctionCall(c), e));
    }
    if let Some(e) = scan_number(s, p) {
        return Some((Expr::Number(text(t, p, e)), skip_ws_from(s, e)));
    }
    if let Some(e) = scan_ident(s, p) {
        return Some((Expr::Ident(text(t, p, e)), skip_ws_from(s, e)));
    }
    None
}

fn p_arith(t: &str, s: &Vec<char>, p: usize, fuel: usize) -> (r: Option<(Expr, usize)>)
    requires
        s@ == t@,
        p <= s@.len(),
    ensures
        same(r, g_arith(s@, p as int, fuel as nat), |x: Expr| expr_m(&x)),
        ends_within(r, p, s@.len()),
    decreases fuel,
{
    if fuel == 0 {
        return None;
    }
    let f = fuel - 1;
    let (first, e) = match p_term(t, s, p, f) {
        Some(x) => x,
        None => return None,
    };
    let ghost target = g_arith_rest(s@, e as int, expr_m(&first), f as nat);
    let mut acc = first;
    let mut pos = e;
    loop
        invariant
            s@ == t@,
            p <= pos <= s@.len(),
            g_arith(s@, p as int, fuel as nat) == target,
            g_arith_rest(s@, pos as int, expr_m(&acc), f as nat) == target,
            fuel == f + 1,
        decreases s@.len() - pos,
    {
        let op = match p_arith_op(s, pos) {
            Some(op) => op,
            None => return Some((acc, pos)),
        };
        if f == 0 {
            return Some((acc, pos));
        }
        let q = skip_ws_from(s, pos + 1);
        match p_term(t, s, q, f - 1) {
            None => return Some((acc, pos)),
            Some((next, e2)) => {
                acc = Expr::BinaryOp { left: Box::new(acc), op, right: Box::new(next) };
                pos = e2;
            },
        }
    }
}

fn p_values_rest(
    t: &str,
    s: &Vec<char>,
    p: usize,
    first: Value,
    close: char,
    fuel: usize,
) -> (r: Option<(Vec<Value>, usize)>)
    requires
        s@ == t@,
        p <= s@.len(),
    ensures
        same(
            r,
            g_values_rest(s@, p as int, seq![value_m(&first)], close, fuel as nat),
            |vs: Vec<Value>| values_m(&vs),
        ),
        ends_within(r, p, s@.len()),
    decreases fuel,
{
    let ghost target = g_values_rest(s@, p as int, seq![value_m(&first)], close, fuel as nat);
    let mut acc: Vec<Value> = Vec::new();
    acc.push(first);
    proof {
        assert(values_m(&acc) =~= seq![value_m(&first)]);
    }
    let mut pos = p;
    loop
        invariant
            s@ == t@,
            p <= pos <= s@.len(),
            g_values_rest(s@, pos as int, values_m(&acc), close, fuel as nat) == target,
            target == g_values_rest(s@, p as int, seq![value_m(&first)], close, fuel as nat),
        decreases s@.len() - pos,
    {
        if char_is_at(s, pos, close) {
            let end = skip_ws_from(s, pos + 1);
            return Some((acc, end));
        } else if char_is_at(s, pos, ',') && fuel > 0 {
            let q = skip_ws_from(s, pos + 1);
            match p_value(t, s, q, fuel - 1) {
                Some((v, e)) => {
                    let ghost old_m = values_m(&acc);
                    let ghost vm = value_m(&v);
                    acc.push(v);
                    proof {
                        assert(values_m(&acc) =~= old_m.push(vm));
                    }
                    pos = e;
                },
                None => return None,
            }
        } else {
            return None;
        }
    }
}

fn p_tuple(t: &str, s: &Vec<char>, p: usize, fuel: usize) -> (r: Option<(Vec<Value>, usize)>)
    requires
        s@ == t@,
        p <= s@.len(),
    ensures
        same(r, g_tuple(s@, p as int, fuel as nat), |vs: Vec<Value>| values_m(&vs)),
        ends_within(r, p, s@.len()),
    decreases fuel,
{
    if fuel == 0 || !char_is_at(s, p, '(') {
        return None;
    }
    let q = skip_ws_from(s, p + 1);
    match p_value(t, s, q, fuel - 1) {
        Some((v, e)) => if char_is_at(s, e, ',') {
            p_values_rest(t, s, e, v, ')', fuel - 1)
        } else {
            None
        },
        None => None,
    }
}

fn p_list(t: &str, s: &Vec<char>, p: usize, fuel: usize) -> (r: Option<(Vec<Value>, usize)>)
    requires
        s@ == t@,
        p <= s@.len(),
    ensures
        same(r, g_list(s@, p as int, fuel as nat), |vs: Vec<Value>| values_m(&vs)),
        ends_within(r, p, s@.len()),
    decreases fuel,
{
    if fuel == 0 || !char_is_at(s, p, '[') {
        return None;
    }
    let q = skip_ws_from(s, p + 1);
    if char_is_at(s, q, ']') {
        let empty: Vec<Value> = Vec::new();
        proof {
            assert(values_m(&empty) =~= Seq::<ValueM>::empty());
        }
        return Some((empty, skip_ws_from(s, q + 1)));
    }
    match p_value(t, s, q, fuel - 1) {
        Some((v, e)) => p_values_rest(t, s, e, v, ']', fuel - 1),
        None => None,
    }
}

fn p_operand(t: &str, s: &Vec<char>, p: usize, fuel: usize) -> (r: Option<(Operand, usize)>)
    requires
        s@ == t@,
        p <= s@.len(),
    ensures
        same(r, g_operand(s@, p as int, fuel as nat), |o: Operand| operand_m(&o)),
        ends_within(r, p, s@.len()),
    decreases fuel,
{
    if fuel == 0 {
        return None;
    }
    if char_is_at(s, p, '(') {
        let q = skip_ws_from(s, p + 1);
        return match p_logic(t, s, q, fuel - 1) {
            Some((l, r)) => if char_is_at(s, r, ')') {
                Some((Operand::LogicalExpr(Box::new(l)), skip_ws_from(s, r + 1)))
            } else {
                None
            },
            None => None,
        };
    }
    if let Some((c, e)) = p_call(t, s, p) {
        return Some((Operand::FunctionCall(c), e));
    }
    if let Some(e) = scan_number(s, p) {
        return Some((Operand::Number(text(t, p, e)), skip_ws_from(s, e)));
    }
    if let Some(e) = scan_ident(s, p) {
        return Some((Operand::Ident(text(t, p, e)), skip_ws_from(s, e)));
    }
    None
}

fn p_comparison(t: &str, s: &Vec<char>, p: usize, fuel: usize) -> (r: Option<(LogicalExpr, usize)>)
    requires
        s@ == t@,
        p <= s@.len(),
    ensures
        same(r, g_comparison(s@, p as int, fuel as nat), |l: LogicalExpr| logical_m(&l)),
        ends_within(r, p, s@.len()),
    decreases fuel,
{
    if fuel == 0 {
        return None;
    }
    let (left, e) = match p_operand(t, s, p, fuel - 1) {
        Some(x) => x,
        None => return None,
    };
    let (op, q) = match p_cmp(s, e) {
        Some(x) => x,
        None => return None,
    };
    let (right, f) = match p_operand(t, s, q, fuel - 1) {
        Some(x) => x,
        None => return None,
    };
    Some((LogicalExpr::Comparison { left, op, right }, f))
}

fn p_inner(t: &str, s: &Vec<char>, p: usize, fuel: usize) -> (r: Option<(LogicalExpr, usize)>)
    requires
        s@ == t@,
        p <= s@.len(),
    ensures
        same(r, g_inner(s@, p as int, fuel as nat), |l: LogicalExpr| logical_m(&l)),
        ends_within(r, p, s@.len()),
    decreases fuel,
{
    if fuel == 0 {
        return None;
    }
    if let Some(x) = p_comparison(t, s, p, fuel - 1) {
        return Some(x);
    }
    if char_is_at(s, p, '(') {
        let q = skip_ws_from(s, p + 1);
        match p_logic(t, s, q, fuel - 1) {
            Some((l, r)) => if char_is_at(s, r, ')') {
                Some((LogicalExpr::Group(Box::new(l)), skip_ws_from(s, r + 1)))
            } else {
                None
            },
            None => None,
        }
    } else {
        None
    }
}

fn p_logic(t: &str, s: &Vec<char>, p: usize, fuel: usize) -> (r: Option<(LogicalExpr, usize)>)
    requires
        s@ == t@,
        p <= s@.len(),
    ensures
        same(r, g_logic(s@, p as int, fuel as nat), |l: LogicalExpr| logical_m(&l)),
        ends_within(r, p, s@.len()),
    decreases fuel,
{
    if fuel == 0 {
        return None;
    }
    let f = fuel - 1;
    let (first, e) = match p_inner(t, s, p, f) {
        Some(x) => x,
        None => return None,
    };
    let ghost target = g_logic_rest(s@, e as int, logical_m(&first), f as nat);
    let mut acc = first;
    let mut pos = e;
    loop
        invariant
            s@ == t@,
            p <= pos <= s@.len(),
            g_logic(s@, p as int, fuel as nat) == target,
            g_logic_rest(s@, pos as int, logical_m(&acc), f as nat) == target,
            fuel == f + 1,
        decreases s@.len() - pos,
    {
        let (op, q) = match p_logic_op(s, pos) {
            Some(x) => x,
            None => return Some((acc, pos)),
        };
        if f == 0 {
            return Some((acc, pos));
        }
        match p_inner(t, s, q, f - 1) {
            None => return Some((acc, pos)),
            Some((next, e2)) => {
                acc = LogicalExpr::BinaryOp { left: Box::new(acc), op, right: Box::new(next) };
                pos = e2;
            },
        }
    }
}

fn p_atom(t: &str, s: &Vec<char>, p: usize) -> (r: Option<(Value, usize)>)
    requires
        s@ == t@,
        p <= s@.len(),
    ensures
        same(r, g_atom(s@, p as int), |v: Value| value_m(&v)),
        ends_within(r, p, s@.len()),
{
    if let Some((c, e)) = p_call(t, s, p) {
        return Some((Value::FunctionCall(c), e));
    }
    if let Some(e) = scan_duration(s, p) {
        return Some((Value::Duration(text(t, p, e)), skip_ws_from(s, e)));
    }
    if let Some(e) = scan_number(s, p) {
        return Some((Value::Number(text(t, p, e)), skip_ws_from(s, e)));
    }
    if let Some(e) = scan_ident(s, p) {
        if span_is(s, p, e, "today") {
            return Some((Value::Keyword(Keyword::Today), skip_ws_from(s, e)));
        }
        return Some((Value::Ident(text(t, p, e)), skip_ws_from(s, e)));
    }
    None
}

fn p_value(t: &str, s: &Vec<char>, p: usize, fuel: usize) -> (r: Option<(Value, usize)>)
    requires
        s@ == t@,
        p <= s@.len(),
    ensures
        same(r, g_value(s@, p as int, fuel as nat), |v: Value| value_m(&v)),
        ends_within(r, p, s@.len()),
    decreases fuel,
{
    if fuel == 0 {
        return None;
    }
    let f = fuel - 1;
    if let Some(e) = scan_date(s, p) {
        return Some((Value::Date(text(t, p, e)), skip_ws_from(s, e)));
    }
    if char_is_at(s, p, '[') {
        return match p_list(t, s, p, f) {
            Some((vs, e)) => Some((Value::List(vs), e)),
            None => None,
        };
    }
    if let Some(q) = scan_string(s, p) {
        return Some((Value::String(text(t, p + 1, q)), skip_ws_from(s, q + 1)));
    }
    if let Some((l, e)) = p_logic(t, s, p, f) {
        return Some((Value::LogicalExpr(l), e));
    }
    if let Some((x, e)) = p_arith(t, s, p, f) {
        match x {
            Expr::BinaryOp { .. } | Expr::Group(_) => {
                return Some((Value::ArithmeticExpr(x), e));
            },
            _ => {},
        }
    }
    if let Some(x) = p_atom(t, s, p) {
        return Some(x);
    }
    match p_tuple(t, s, p, f) {
        Some((vs, e)) => Some((Value::Tuple(vs), e)),
        None => None,
    }
}

fn p_arg(t: &str, s: &Vec<char>, p: usize) -> (r: Option<(NamedArg, usize)>)
    requires
        s@ == t@,
        p <= s@.len(),
    ensures
        same(r, g_arg(s@, p as int), |a: NamedArg| named_arg_m(&a)),
        ends_within(r, p, s@.len()),
{
    let e = match scan_ident(s, p) {
        Some(e) => e,
        None => return None,
    };
    let q = skip_ws_from(s, e);
    if !char_is_at(s, q, '=') {
        return None;
    }
    let q2 = skip_ws_from(s, q + 1);
    match p_value(t, s, q2, NESTING_LIMIT) {
        Some((v, r)) => Some((NamedArg { name: text(t, p, e), value: v }, r)),
        None => None,
    }
}

fn p_args_rest(t: &str, s: &Vec<char>, p: usize, first: NamedArg) -> (r: Option<
    (Vec<NamedArg>, usize),
>)
    requires
        s@ == t@,
        p <= s@.len(),
    ensures
        same(
            r,
            g_args_rest(s@, p as int, seq![named_arg_m(&first)]),
            |v: Vec<NamedArg>| v@.map_values(|a: NamedArg| named_arg_m(&a)),
        ),
        ends_within(r, p, s@.len()),
{
    let ghost target = g_args_rest(s@, p as int, seq![named_arg_m(&first)]);
    let mut acc: Vec<NamedArg> = Vec::new();
    acc.push(first);
    proof {
        assert(acc@.map_values(|a: NamedArg| named_arg_m(&a)) =~= seq![named_arg_m(&first)]);
    }
    let mut pos = p;
    loop
        invariant
            s@ == t@,
            p <= pos <= s@.len(),
            g_args_rest(s@, pos as int, acc@.map_values(|a: NamedArg| named_arg_m(&a))) == target,
            target == g_args_rest(s@, p as int, seq![named_arg_m(&first)]),
        decreases s@.len() - pos,
    {
        if char_is_at(s, pos, ')') {
            let end = skip_ws_from(s, pos + 1);
            return Some((acc, end));
        } else if char_is_at(s, pos, ',') {
            let q = skip_ws_from(s, pos + 1);
            match p_arg(t, s, q) {
                Some((a, e)) => {
                    let ghost old_m = acc@.map_values(|x: NamedArg| named_arg_m(&x));
                    let ghost am = named_arg_m(&a);
                    acc.push(a);
                    proof {
                        assert(acc@.map_values(|x: NamedArg| named_arg_m(&x)) =~= old_m.push(am));
                    }
                    pos = e;
                },
                None => return None,
            }
        } else {
            return None;
        }
    }
}

fn command_of(kind: CommandKind, args: Vec<NamedArg>) -> (c: Command)
    ensures
        command_m(&c) == (CommandM { kind, args: args@.map_values(|a: NamedArg| named_arg_m(&a)) }),
{
    match kind {
        CommandKind::Filter => Command::Filter(args),
        CommandKind::Sort => Command::Sort(args),
        CommandKind::Backtest => Command::Backtest(args),
        CommandKind::Plot => Command::Plot(args),
    }
}

fn p_command_kind(s: &Vec<char>, a: usize, b: usize) -> (r: Option<CommandKind>)
    requires
        a <= b <= s@.len(),
    ensures
        r == command_kind_of(s@.subrange(a as int, b as int)),
{
    if span_is(s, a, b, "FILTER") {
        Some(CommandKind::Filter)
    } else if span_is(s, a, b, "SORT") {
        Some(CommandKind::Sort)
    } else if span_is(s, a, b, "PLOT") || span_is(s, a, b, "CHART") {
        Some(CommandKind::Plot)
    } else if span_is(s, a, b, "BACKTEST") {
        Some(CommandKind::Backtest)
    } else {
        None
    }
}

/// Parses one `&`-separated segment of a script.
pub fn parse_command(t: &str) -> (r: Result<Command, ParseError>)
    ensures
        match r {
            Ok(c) => g_command(t@) == Ok::<CommandM, ParseError>(command_m(&c)),
            Err(x) => g_command(t@) == Err::<CommandM, ParseError>(x),
        },
{
    let s = chars_of(t);
    let p = skip_ws_from(&s, 0);
    let e = match scan_ident(&s, p) {
        Some(e) => e,
        None => return Err(ParseError::UnknownCommand),
    };
    let kind = match p_command_kind(&s, p, e) {
        Some(k) => k,
        None => return Err(ParseError::UnknownCommand),
    };
    let q = skip_ws_from(&s, e);
    if q == s.len() {
        let c = command_of(kind, Vec::new());
        proof {
            assert(command_m(&c).args =~= Seq::<NamedArgM>::empty());
        }
        return Ok(c);
    }
    if !char_is_at(&s, q, '(') {
        return Err(ParseError::Malformed);
    }
    let r = skip_ws_from(&s, q + 1);
    let parsed: Option<(Vec<NamedArg>, usize)> = if char_is_at(&s, r, ')') {
        let empty: Vec<NamedArg> = Vec::new();
        proof {
            assert(empty@.map_values(|a: NamedArg| named_arg_m(&a)) =~= Seq::<NamedArgM>::empty());
        }
        Some((empty, skip_ws_from(&s, r + 1)))
    } else {
        match p_arg(t, &s, r) {
            Some((a, e2)) => p_args_rest(t, &s, e2, a),
            None => None,
        }
    };
    match parsed {
        Some((args, f)) => if f == s.len() {
            Ok(command_of(kind, args))
        } else {
            Err(ParseError::Malformed)
        },
        None => Err(ParseError::Malformed),
    }
}

/// `acc` followed by the commands of `rest`, or the error of `rest`.
pub open spec fn prepend(acc: Seq<CommandM>, rest: Result<Seq<CommandM>, ParseError>) -> Result<
    Seq<CommandM>,
    ParseError,
> {
    match rest {
        Ok(cs) => Ok(acc + cs),
        Err(x) => Err(x),
    }
}

/// Parses a whole script: its `&`-separated commands in order, skipping
/// segments that hold only white space.
pub fn parse_script(input: &str) -> (r: Result<Program, ParseError>)
    ensures
        match r {
            Ok(prog) => parse_model(input@) == Ok::<Seq<CommandM>, ParseError>(program_m(&prog)),
            Err(x) => parse_model(input@) == Err::<Seq<CommandM>, ParseError>(x),
        },
{
    let s = chars_of(input);
    let mut commands: Vec<Command> = Vec::new();
    let mut p: usize = 0;
    proof {
        assert(commands@.map_values(|c: Command| command_m(&c)) =~= Seq::<CommandM>::empty());
        assert(prepend(Seq::<CommandM>::empty(), g_program_from(s@, 0)) =~= g_program_from(s@, 0))
            by {
            match g_program_from(s@, 0) {
                Ok(cs) => {
                    assert(Seq::<CommandM>::empty() + cs =~= cs);
                },
                Err(_) => {},
            }
        }
    }
    loop
        invariant
            s@ == input@,
            p <= s@.len(),
            parse_model(input@) == prepend(
                commands@.map_values(|c: Command| command_m(&c)),
                g_program_from(s@, p as int),
            ),
        decreases s@.len() - p,
    {
        let e = amp_end_from(&s, p);
        let seg = input.substring_char(p, e);
        let seg_chars = chars_of(seg);
        let ghost acc = commands@.map_values(|c: Command| command_m(&c));
        let ghost rest = if e < s@.len() {
            g_program_from(s@, e + 1)
        } else {
            Ok(seq![])
        };
        if skip_ws_from(&seg_chars, 0) != seg_chars.len() {
            match parse_command(seg) {
                Ok(c) => {
                    let ghost cm = command_m(&c);
                    commands.push(c);
                    proof {
                        assert(commands@.map_values(|c: Command| command_m(&c)) =~= acc.push(cm));
                        match rest {
                            Ok(cs) => {
                                assert(acc + (seq![cm] + cs) =~= acc.push(cm) + cs);
                            },
                            Err(_) => {},
                        }
                    }
                },
                Err(x) => return Err(x),
            }
        }
        if e < s.len() {
            p = e + 1;
        } else {
            proof {
                let fin = commands@.map_values(|c: Command| command_m(&c));
                assert(fin + Seq::<CommandM>::empty() =~= fin);
            }
            return Ok(Program { commands });
        }
    }
}

/// The script parser.
pub struct ScriptParser;

impl ScriptParser {
    /// Parses a whole script; the same as `parse_script`.
    pub fn parse(input: &str) -> (r: Result<Program, ParseError>)
        ensures
            match r {
                Ok(prog) => parse_model(input@) == Ok::<Seq<CommandM>, ParseError>(program_m(&prog)),
                Err(x) => parse_model(input@) == Err::<Seq<CommandM>, ParseError>(x),
            },
    {
        parse_script(input)
    }
}

} // verus!
