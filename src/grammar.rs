//! The grammar of script values, stated as spec functions from a position to
//! the parsed model and the position after it (trailing white space skipped).
//!
//! Choices are ordered: the first alternative that matches wins. Nesting is
//! bounded by `fuel`; every rule that can nest spends one unit of it.
use vstd::prelude::*;
use crate::ast::{
    ArithmeticOp, CallM, CommandKind, CommandM, Comparator, ExprM, FunctionArgM, Keyword, LogicalM,
    LogicalOp, NamedArgM, OperandM, ValueM,
};
use crate::lexer::{
    amp_end, date_at, duration_at, char_is, ident_at, number_at, skip_ws, string_at,
};

verus! {

/// How deeply the rules of one argument value may nest.
pub const NESTING_LIMIT: usize = 1024;

#[derive(Clone, Copy, PartialEq, Eq, Debug, Structural)]
pub enum ParseError {
    /// A segment does not start with FILTER, SORT, PLOT, CHART or BACKTEST.
    UnknownCommand,
    /// A command's argument list does not follow the grammar.
    Malformed,
}

pub open spec fn span(s: Seq<char>, a: int, b: int) -> Seq<char> {
    s.subrange(a, b)
}

pub open spec fn g_farg(s: Seq<char>, p: int) -> Option<(FunctionArgM, int)> {
    match number_at(s, p) {
        Some(e) => Some((FunctionArgM::Number(span(s, p, e)), skip_ws(s, e))),
        None => match string_at(s, p) {
            Some(q) => Some((FunctionArgM::Str(span(s, p + 1, q)), skip_ws(s, q + 1))),
            None => match ident_at(s, p) {
                Some(e) => Some((FunctionArgM::Ident(span(s, p, e)), skip_ws(s, e))),
                None => None,
            },
        },
    }
}

pub open spec fn g_fargs_rest(s: Seq<char>, p: int, acc: Seq<FunctionArgM>) -> Option<
    (Seq<FunctionArgM>, int),
>
    decreases s.len() - p,
{
    if char_is(s, p, ')') {
        Some((acc, skip_ws(s, p + 1)))
    } else if char_is(s, p, ',') {
        match g_farg(s, skip_ws(s, p + 1)) {
            Some((a, e)) => if p < e <= s.len() {
                g_fargs_rest(s, e, acc.push(a))
            } else {
                None
            },
            None => None,
        }
    } else {
        None
    }
}

/// `NAME(arg, ...)` whose arguments are numbers, strings or identifiers.
pub open spec fn g_call(s: Seq<char>, p: int) -> Option<(CallM, int)> {
    match ident_at(s, p) {
        None => None,
        Some(ie) => {
            let q = skip_ws(s, ie);
            if !char_is(s, q, '(') {
                None
            } else {
                let r = skip_ws(s, q + 1);
                if char_is(s, r, ')') {
                    Some((CallM { name: span(s, p, ie), args: seq![] }, skip_ws(s, r + 1)))
                } else {
                    match g_farg(s, r) {
                        None => None,
                        Some((a, e)) => match g_fargs_rest(s, e, seq![a]) {
                            Some((args, f)) => Some((CallM { name: span(s, p, ie), args }, f)),
                            None => None,
                        },
                    }
                }
            }
        },
    }
}

pub open spec fn g_arith_op(s: Seq<char>, p: int) -> Option<ArithmeticOp> {
    if char_is(s, p, '+') {
        Some(ArithmeticOp::Add)
    } else if char_is(s, p, '-') {
        Some(ArithmeticOp::Sub)
    } else if char_is(s, p, '/') {
        Some(ArithmeticOp::Div)
    } else {
        None
    }
}

pub open spec fn g_cmp(s: Seq<char>, p: int) -> Option<(Comparator, int)> {
    if char_is(s, p, '>') {
        if char_is(s, p + 1, '=') {
            Some((Comparator::Gte, skip_ws(s, p + 2)))
        } else {
            Some((Comparator::Gt, skip_ws(s, p + 1)))
        }
    } else if char_is(s, p, '<') {
        if char_is(s, p + 1, '=') {
            Some((Comparator::Lte, skip_ws(s, p + 2)))
        } else {
            Some((Comparator::Lt, skip_ws(s, p + 1)))
        }
    } else if char_is(s, p, '=') && char_is(s, p + 1, '=') {
        Some((Comparator::Eq, skip_ws(s, p + 2)))
    } else if char_is(s, p, '!') && char_is(s, p + 1, '=') {
        Some((Comparator::Neq, skip_ws(s, p + 2)))
    } else {
        None
    }
}

pub open spec fn g_logic_op(s: Seq<char>, p: int) -> Option<(LogicalOp, int)> {
    match ident_at(s, p) {
        Some(e) => if span(s, p, e) == "AND"@ {
            Some((LogicalOp::And, skip_ws(s, e)))
        } else if span(s, p, e) == "OR"@ {
            Some((LogicalOp::Or, skip_ws(s, e)))
        } else {
            None
        },
        None => None,
    }
}

/// A term of an arithmetic expression.
pub open spec fn g_term(s: Seq<char>, p: int, fuel: nat) -> Option<(ExprM, int)>
    decreases fuel, s.len() - p,
{
    if fuel == 0 {
        None
    } else if char_is(s, p, '(') {
        let tuple = match g_tuple(s, p, (fuel - 1) as nat) {
            Some((vs, r)) => Some((ExprM::Tuple(vs), r)),
            None => None,
        };
        match g_arith(s, skip_ws(s, p + 1), (fuel - 1) as nat) {
            Some((e, r)) => if char_is(s, r, ')') {
                Some((ExprM::Group(Box::new(e)), skip_ws(s, r + 1)))
            } else {
                tuple
            },
            None => tuple,
        }
    } else {
        match g_call(s, p) {
            Some((c, e)) => Some((ExprM::Call(c), e)),
            None => match number_at(s, p) {
                Some(e) => Some((ExprM::Number(span(s, p, e)), skip_ws(s, e))),
                None => match ident_at(s, p) {
                    Some(e) => Some((ExprM::Ident(span(s, p, e)), skip_ws(s, e))),
                    None => None,
                },
            },
        }
    }
}

/// `term (op term)*`, grouped to the left.
pub open spec fn g_arith(s: Seq<char>, p: int, fuel: nat) -> Option<(ExprM, int)>
    decreases fuel, s.len() - p,
{
    if fuel == 0 {
        None
    } else {
        match g_term(s, p, (fuel - 1) as nat) {
            Some((t, e)) => g_arith_rest(s, e, t, (fuel - 1) as nat),
            None => None,
        }
    }
}

pub open spec fn g_arith_rest(s: Seq<char>, p: int, acc: ExprM, fuel: nat) -> Option<(ExprM, int)>
    decreases fuel, s.len() - p,
{
    match g_arith_op(s, p) {
        None => Some((acc, p)),
        Some(op) => if fuel == 0 {
            Some((acc, p))
        } else {
            match g_term(s, skip_ws(s, p + 1), (fuel - 1) as nat) {
                None => Some((acc, p)),
                Some((t, e)) => if p < e <= s.len() {
                    g_arith_rest(
                        s,
                        e,
                        ExprM::BinaryOp { left: Box::new(acc), op, right: Box::new(t) },
                        fuel,
                    )
                } else {
                    Some((acc, p))
                },
            }
        },
    }
}

/// `(value, value, ...)` with at least two values.
pub open spec fn g_tuple(s: Seq<char>, p: int, fuel: nat) -> Option<(Seq<ValueM>, int)>
    decreases fuel, s.len() - p,
{
    if fuel == 0 || !char_is(s, p, '(') {
        None
    } else {
        match g_value(s, skip_ws(s, p + 1), (fuel - 1) as nat) {
            Some((v, e)) => if char_is(s, e, ',') {
                g_values_rest(s, e, seq![v], ')', (fuel - 1) as nat)
            } else {
                None
            },
            None => None,
        }
    }
}

/// `[value, ...]`, possibly empty.
pub open spec fn g_list(s: Seq<char>, p: int, fuel: nat) -> Option<(Seq<ValueM>, int)>
    decreases fuel, s.len() - p,
{
    if fuel == 0 || !char_is(s, p, '[') {
        None
    } else {
        let q = skip_ws(s, p + 1);
        if char_is(s, q, ']') {
            Some((seq![], skip_ws(s, q + 1)))
        } else {
            match g_value(s, q, (fuel - 1) as nat) {
                Some((v, e)) => g_values_rest(s, e, seq![v], ']', (fuel - 1) as nat),
                None => None,
            }
        }
    }
}

/// `(, value)* close`, after the first value of a list or tuple.
pub open spec fn g_values_rest(
    s: Seq<char>,
    p: int,
    acc: Seq<ValueM>,
    close: char,
    fuel: nat,
) -> Option<(Seq<ValueM>, int)>
    decreases fuel, s.len() - p,
{
    if char_is(s, p, close) {
        Some((acc, skip_ws(s, p + 1)))
    } else if char_is(s, p, ',') && fuel > 0 {
        match g_value(s, skip_ws(s, p + 1), (fuel - 1) as nat) {
            Some((v, e)) => if p < e <= s.len() {
                g_values_rest(s, e, acc.push(v), close, fuel)
            } else {
                None
            },
            None => None,
        }
    } else {
        None
    }
}

pub open spec fn g_operand(s: Seq<char>, p: int, fuel: nat) -> Option<(OperandM, int)>
    decreases fuel, s.len() - p,
{
    if fuel == 0 {
        None
    } else if char_is(s, p, '(') {
        match g_logic(s, skip_ws(s, p + 1), (fuel - 1) as nat) {
            Some((l, r)) => if char_is(s, r, ')') {
                Some((OperandM::Logical(Box::new(l)), skip_ws(s, r + 1)))
            } else {
                None
            },
            None => None,
        }
    } else {
        match g_call(s, p) {
            Some((c, e)) => Some((OperandM::Call(c), e)),
            None => match number_at(s, p) {
                Some(e) => Some((OperandM::Number(span(s, p, e)), skip_ws(s, e))),
                None => match ident_at(s, p) {
                    Some(e) => Some((OperandM::Ident(span(s, p, e)), skip_ws(s, e))),
                    None => None,
                },
            },
        }
    }
}

pub open spec fn g_comparison(s: Seq<char>, p: int, fuel: nat) -> Option<(LogicalM, int)>
    decreases fuel, s.len() - p,
{
    if fuel == 0 {
        None
    } else {
        match g_operand(s, p, (fuel - 1) as nat) {
            Some((l, e)) => match g_cmp(s, e) {
                Some((op, q)) => match g_operand(s, q, (fuel - 1) as nat) {
                    Some((r, f)) => Some((LogicalM::Comparison { left: l, op, right: r }, f)),
                    None => None,
                },
                None => None,
            },
            None => None,
        }
    }
}

/// A comparison, or a parenthesized logical expression.
pub open spec fn g_inner(s: Seq<char>, p: int, fuel: nat) -> Option<(LogicalM, int)>
    decreases fuel, s.len() - p,
{
    if fuel == 0 {
        None
    } else {
        match g_comparison(s, p, (fuel - 1) as nat) {
            Some(x) => Some(x),
            None => if char_is(s, p, '(') {
                match g_logic(s, skip_ws(s, p + 1), (fuel - 1) as nat) {
                    Some((l, r)) => if char_is(s, r, ')') {
                        Some((LogicalM::Group(Box::new(l)), skip_ws(s, r + 1)))
                    } else {
                        None
                    },
                    None => None,
                }
            } else {
                None
            },
        }
    }
}

/// `inner (AND|OR inner)*`, grouped to the left.
pub open spec fn g_logic(s: Seq<char>, p: int, fuel: nat) -> Option<(LogicalM, int)>
    decreases fuel, s.len() - p,
{
    if fuel == 0 {
        None
    } else {
        match g_inner(s, p, (fuel - 1) as nat) {
            Some((l, e)) => g_logic_rest(s, e, l, (fuel - 1) as nat),
            None => None,
        }
    }
}

pub open spec fn g_logic_rest(s: Seq<char>, p: int, acc: LogicalM, fuel: nat) -> Option<
    (LogicalM, int),
>
    decreases fuel, s.len() - p,
{
    match g_logic_op(s, p) {
        None => Some((acc, p)),
        Some((op, q)) => if fuel == 0 {
            Some((acc, p))
        } else {
            match g_inner(s, q, (fuel - 1) as nat) {
                None => Some((acc, p)),
                Some((r, e)) => if p < e <= s.len() {
                    g_logic_rest(
                        s,
                        e,
                        LogicalM::BinaryOp { left: Box::new(acc), op, right: Box::new(r) },
                        fuel,
                    )
                } else {
                    Some((acc, p))
                },
            }
        },
    }
}

/// An argument value; the alternatives are tried in this order.
pub open spec fn g_value(s: Seq<char>, p: int, fuel: nat) -> Option<(ValueM, int)>
    decreases fuel, s.len() - p,
{
    if fuel == 0 {
        None
    } else {
        let f = (fuel - 1) as nat;
        match date_at(s, p) {
            Some(e) => Some((ValueM::Date(span(s, p, e)), skip_ws(s, e))),
            None => if char_is(s, p, '[') {
                match g_list(s, p, f) {
                    Some((vs, e)) => Some((ValueM::List(vs), e)),
                    None => None,
                }
            } else {
                match string_at(s, p) {
                    Some(q) => Some((ValueM::Str(span(s, p + 1, q)), skip_ws(s, q + 1))),
                    None => match g_logic(s, p, f) {
                        Some((l, e)) => Some((ValueM::Logical(l), e)),
                        None => {
                            // an arithmetic value holds an operator or is one group
                            let arith = match g_arith(s, p, f) {
                                Some((x, e)) => if x is BinaryOp || x is Group {
                                    Some((ValueM::Arith(x), e))
                                } else {
                                    None
                                },
                                None => None,
                            };
                            match arith {
                                Some(r) => Some(r),
                                None => match g_atom(s, p) {
                                    Some(r) => Some(r),
                                    None => match g_tuple(s, p, f) {
                                        Some((vs, e)) => Some((ValueM::Tuple(vs), e)),
                                        None => None,
                                    },
                                },
                            }
                        },
                    },
                }
            },
        }
    }
}

/// A function call, duration, number, `today` or identifier.
pub open spec fn g_atom(s: Seq<char>, p: int) -> Option<(ValueM, int)> {
    match g_call(s, p) {
        Some((c, e)) => Some((ValueM::Call(c), e)),
        None => match duration_at(s, p) {
            Some(e) => Some((ValueM::Duration(span(s, p, e)), skip_ws(s, e))),
            None => match number_at(s, p) {
                Some(e) => Some((ValueM::Number(span(s, p, e)), skip_ws(s, e))),
                None => match ident_at(s, p) {
                    Some(e) => if span(s, p, e) == "today"@ {
                        Some((ValueM::Keyword(Keyword::Today), skip_ws(s, e)))
                    } else {
                        Some((ValueM::Ident(span(s, p, e)), skip_ws(s, e)))
                    },
                    None => None,
                },
            },
        },
    }
}

/// `name = value`.
pub open spec fn g_arg(s: Seq<char>, p: int) -> Option<(NamedArgM, int)> {
    match ident_at(s, p) {
        Some(e) => {
            let q = skip_ws(s, e);
            if char_is(s, q, '=') {
                match g_value(s, skip_ws(s, q + 1), NESTING_LIMIT as nat) {
                    Some((v, r)) => Some((NamedArgM { name: span(s, p, e), value: v }, r)),
                    None => None,
                }
            } else {
                None
            }
        },
        None => None,
    }
}

pub open spec fn g_args_rest(s: Seq<char>, p: int, acc: Seq<NamedArgM>) -> Option<
    (Seq<NamedArgM>, int),
>
    decreases s.len() - p,
{
    if char_is(s, p, ')') {
        Some((acc, skip_ws(s, p + 1)))
    } else if char_is(s, p, ',') {
        match g_arg(s, skip_ws(s, p + 1)) {
            Some((a, e)) => if p < e <= s.len() {
                g_args_rest(s, e, acc.push(a))
            } else {
                None
            },
            None => None,
        }
    } else {
        None
    }
}

pub open spec fn command_kind_of(w: Seq<char>) -> Option<CommandKind> {
    if w == "FILTER"@ {
        Some(CommandKind::Filter)
    } else if w == "SORT"@ {
        Some(CommandKind::Sort)
    } else if w == "PLOT"@ || w == "CHART"@ {
        Some(CommandKind::Plot)
    } else if w == "BACKTEST"@ {
        Some(CommandKind::Backtest)
    } else {
        None
    }
}

/// One command: a bare keyword, or a keyword with `(arg, ...)`, and nothing
/// after it but white space.
pub open spec fn g_command(s: Seq<char>) -> Result<CommandM, ParseError> {
    let p = skip_ws(s, 0);
    match ident_at(s, p) {
        None => Err(ParseError::UnknownCommand),
        Some(e) => match command_kind_of(span(s, p, e)) {
            None => Err(ParseError::UnknownCommand),
            Some(kind) => {
                let q = skip_ws(s, e);
                if q == s.len() {
                    Ok(CommandM { kind, args: seq![] })
                } else if char_is(s, q, '(') {
                    let r = skip_ws(s, q + 1);
                    let parsed = if char_is(s, r, ')') {
                        Some((Seq::<NamedArgM>::empty(), skip_ws(s, r + 1)))
                    } else {
                        match g_arg(s, r) {
                            Some((a, e2)) => g_args_rest(s, e2, seq![a]),
                            None => None,
                        }
                    };
                    match parsed {
                        Some((args, f)) => if f == s.len() {
                            Ok(CommandM { kind, args })
                        } else {
                            Err(ParseError::Malformed)
                        },
                        None => Err(ParseError::Malformed),
                    }
                } else {
                    Err(ParseError::Malformed)
                }
            },
        },
    }
}

/// The commands of the `&`-separated segments from position `p` on; segments
/// that hold only white space are dropped, and the first failing segment's
/// error is the result.
pub open spec fn g_program_from(s: Seq<char>, p: int) -> Result<Seq<CommandM>, ParseError>
    decreases s.len() - p,
{
    if p < 0 || p > s.len() {
        Ok(seq![])
    } else {
        let e = amp_end(s, p);
        let seg = span(s, p, e);
        let rest = if p <= e < s.len() {
            g_program_from(s, e + 1)
        } else {
            Ok(seq![])
        };
        if skip_ws(seg, 0) == seg.len() {
            rest
        } else {
            match g_command(seg) {
                Err(x) => Err(x),
                Ok(c) => match rest {
                    Ok(cs) => Ok(seq![c] + cs),
                    Err(x) => Err(x),
                },
            }
        }
    }
}

pub open spec fn parse_model(s: Seq<char>) -> Result<Seq<CommandM>, ParseError> {
    g_program_from(s, 0)
}

} // verus!
