//! Syntax tree of a screening script, and its mathematical model.
//!
//! Every executable node has a model value (built from `Seq`) given by the
//! `*_m` spec functions; the parser's contracts are stated over the models.
use vstd::prelude::*;

verus! {

/// A whole script: its commands in written order.
pub struct Program {
    pub commands: Vec<Command>,
}

pub enum Command {
    Filter(Vec<NamedArg>),
    Sort(Vec<NamedArg>),
    Backtest(Vec<NamedArg>),
    Plot(Vec<NamedArg>),
}

pub struct NamedArg {
    pub name: String,
    pub value: Value,
}

/// Numbers are kept as the exact literal text of the script.
pub enum Value {
    Number(String),
    String(String),
    Ident(String),
    Keyword(Keyword),
    Date(String),
    Duration(String),
    ArithmeticExpr(Expr),
    LogicalExpr(LogicalExpr),
    List(Vec<Value>),
    Tuple(Vec<Value>),
    FunctionCall(FunctionCall),
}

pub enum Expr {
    Number(String),
    Ident(String),
    FunctionCall(FunctionCall),
    Tuple(Vec<Value>),
    BinaryOp { left: Box<Expr>, op: ArithmeticOp, right: Box<Expr> },
    Group(Box<Expr>),
}

#[derive(Clone, Copy, PartialEq, Eq, Debug, Structural)]
pub enum ArithmeticOp {
    Add,
    Sub,
    Div,
}

pub enum LogicalExpr {
    Comparison { left: Operand, op: Comparator, right: Operand },
    BinaryOp { left: Box<LogicalExpr>, op: LogicalOp, right: Box<LogicalExpr> },
    Group(Box<LogicalExpr>),
}

pub enum Operand {
    Number(String),
    Ident(String),
    FunctionCall(FunctionCall),
    LogicalExpr(Box<LogicalExpr>),
}

#[derive(Clone, Copy, PartialEq, Eq, Debug, Structural)]
pub enum LogicalOp {
    And,
    Or,
}

#[derive(Clone, Copy, PartialEq, Eq, Debug, Structural)]
pub enum Comparator {
    Gt,
    Gte,
    Lt,
    Lte,
    Eq,
    Neq,
}

pub struct FunctionCall {
    pub name: String,
    pub args: Vec<FunctionArg>,
}

pub enum FunctionArg {
    Ident(String),
    Number(String),
    String(String),
}

#[derive(Clone, Copy, PartialEq, Eq, Debug, Structural)]
pub enum Keyword {
    Today,
    Stocks,
    Indexes,
}

// ---------------------------------------------------------------------------
// Models
// ---------------------------------------------------------------------------

pub enum CommandKind {
    Filter,
    Sort,
    Backtest,
    Plot,
}

pub struct CommandM {
    pub kind: CommandKind,
    pub args: Seq<NamedArgM>,
}

pub struct NamedArgM {
    pub name: Seq<char>,
    pub value: ValueM,
}

pub enum ValueM {
    Number(Seq<char>),
    Str(Seq<char>),
    Ident(Seq<char>),
    Keyword(Keyword),
    Date(Seq<char>),
    Duration(Seq<char>),
    Arith(ExprM),
    Logical(LogicalM),
    List(Seq<ValueM>),
    Tuple(Seq<ValueM>),
    Call(CallM),
}

pub enum ExprM {
    Number(Seq<char>),
    Ident(Seq<char>),
    Call(CallM),
    Tuple(Seq<ValueM>),
    BinaryOp { left: Box<ExprM>, op: ArithmeticOp, right: Box<ExprM> },
    Group(Box<ExprM>),
}

pub enum LogicalM {
    Comparison { left: OperandM, op: Comparator, right: OperandM },
    BinaryOp { left: Box<LogicalM>, op: LogicalOp, right: Box<LogicalM> },
    Group(Box<LogicalM>),
}

pub enum OperandM {
    Number(Seq<char>),
    Ident(Seq<char>),
    Call(CallM),
    Logical(Box<LogicalM>),
}

pub struct CallM {
    pub name: Seq<char>,
    pub args: Seq<FunctionArgM>,
}

pub enum FunctionArgM {
    Ident(Seq<char>),
    Number(Seq<char>),
    Str(Seq<char>),
}

pub open spec fn farg_m(a: &FunctionArg) -> FunctionArgM {
    match a {
        FunctionArg::Ident(t) => FunctionArgM::Ident(t@),
        FunctionArg::Number(t) => FunctionArgM::Number(t@),
        FunctionArg::String(t) => FunctionArgM::Str(t@),
    }
}

pub open spec fn call_m(c: &FunctionCall) -> CallM {
    CallM { name: c.name@, args: c.args@.map_values(|a: FunctionArg| farg_m(&a)) }
}

pub open spec fn values_m(vs: &Vec<Value>) -> Seq<ValueM>
    decreases vs,
    via values_m_decreases
{
    Seq::new(
        vs@.len(),
        |i: int|
            if 0 <= i < vs@.len() {
                value_m(&vs@[i])
            } else {
                ValueM::Number(Seq::empty())
            },
    )
}

#[via_fn]
proof fn values_m_decreases(vs: &Vec<Value>) {
    broadcast use vstd::std_specs::vec::axiom_vec_decreases_to_view, vstd::seq::axiom_seq_index_decreases;

    assert forall|i: int| 0 <= i < vs@.len() implies decreases_to!(vs => &vs@[i]) by {
        assert(decreases_to!(vs => vs@));
        assert(decreases_to!(vs@ => vs@[i]));
    }
}

pub open spec fn value_m(v: &Value) -> ValueM
    decreases v,
{
    match v {
        Value::Number(t) => ValueM::Number(t@),
        Value::String(t) => ValueM::Str(t@),
        Value::Ident(t) => ValueM::Ident(t@),
        Value::Keyword(k) => ValueM::Keyword(*k),
        Value::Date(t) => ValueM::Date(t@),
        Value::Duration(t) => ValueM::Duration(t@),
        Value::ArithmeticExpr(e) => ValueM::Arith(expr_m(e)),
        Value::LogicalExpr(l) => ValueM::Logical(logical_m(l)),
        Value::List(vs) => ValueM::List(values_m(vs)),
        Value::Tuple(vs) => ValueM::Tuple(values_m(vs)),
        Value::FunctionCall(c) => ValueM::Call(call_m(c)),
    }
}

pub open spec fn expr_m(e: &Expr) -> ExprM
    decreases e,
{
    match e {
        Expr::Number(t) => ExprM::Number(t@),
        Expr::Ident(t) => ExprM::Ident(t@),
        Expr::FunctionCall(c) => ExprM::Call(call_m(c)),
        Expr::Tuple(vs) => ExprM::Tuple(values_m(vs)),
        Expr::BinaryOp { left, op, right } => ExprM::BinaryOp {
            left: Box::new(expr_m(left)),
            op: *op,
            right: Box::new(expr_m(right)),
        },
        Expr::Group(inner) => ExprM::Group(Box::new(expr_m(inner))),
    }
}

pub open spec fn logical_m(l: &LogicalExpr) -> LogicalM
    decreases l,
{
    match l {
        LogicalExpr::Comparison { left, op, right } => LogicalM::Comparison {
            left: operand_m(left),
            op: *op,
            right: operand_m(right),
        },
        LogicalExpr::BinaryOp { left, op, right } => LogicalM::BinaryOp {
            left: Box::new(logical_m(left)),
            op: *op,
            right: Box::new(logical_m(right)),
        },
        LogicalExpr::Group(inner) => LogicalM::Group(Box::new(logical_m(inner))),
    }
}

pub open spec fn operand_m(o: &Operand) -> OperandM
    decreases o,
{
    match o {
        Operand::Number(t) => OperandM::Number(t@),
        Operand::Ident(t) => OperandM::Ident(t@),
        Operand::FunctionCall(c) => OperandM::Call(call_m(c)),
        Operand::LogicalExpr(inner) => OperandM::Logical(Box::new(logical_m(inner))),
    }
}

pub open spec fn named_arg_m(a: &NamedArg) -> NamedArgM {
    NamedArgM { name: a.name@, value: value_m(&a.value) }
}

pub open spec fn named_args_m(args: &Vec<NamedArg>) -> Seq<NamedArgM> {
    args@.map_values(|a: NamedArg| named_arg_m(&a))
}

pub open spec fn command_m(c: &Command) -> CommandM {
    match c {
        Command::Filter(args) => CommandM { kind: CommandKind::Filter, args: named_args_m(args) },
        Command::Sort(args) => CommandM { kind: CommandKind::Sort, args: named_args_m(args) },
        Command::Backtest(args) => CommandM { kind: CommandKind::Backtest, args: named_args_m(args) },
        Command::Plot(args) => CommandM { kind: CommandKind::Plot, args: named_args_m(args) },
    }
}

pub open spec fn program_m(p: &Program) -> Seq<CommandM> {
    p.commands@.map_values(|c: Command| command_m(&c))
}

} // verus!
