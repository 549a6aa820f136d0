use screener::ast::{ArithmeticOp, Command, Comparator, Expr, FunctionArg, Keyword, LogicalExpr, LogicalOp, Operand, Value};
use screener::grammar::ParseError;
use screener::parser::{parse_command, parse_script, ScriptParser};

fn args(c: &Command) -> &Vec<screener::ast::NamedArg> {
    match c {
        Command::Filter(a) | Command::Sort(a) | Command::Backtest(a) | Command::Plot(a) => a,
    }
}

#[test]
fn it_works() {
    let program = parse_script("FILTER & SORT & CHART & BACKTEST").unwrap();
    assert_eq!(program.commands.len(), 4);
    assert!(matches!(program.commands[0], Command::Filter(_)));
    assert!(matches!(program.commands[1], Command::Sort(_)));
    assert!(matches!(program.commands[2], Command::Plot(_)));
    assert!(matches!(program.commands[3], Command::Backtest(_)));
}

#[test]
fn plot_with_items_and_dates() {
    let program = parse_script("PLOT(items=[AAA], from=2024-01-01, to=2024-03-01)").unwrap();
    assert_eq!(program.commands.len(), 1);
    let a = args(&program.commands[0]);
    assert_eq!(a.len(), 3);
    assert_eq!(a[0].name, "items");
    match &a[0].value {
        Value::List(vs) => {
            assert_eq!(vs.len(), 1);
            assert!(matches!(&vs[0], Value::Ident(s) if s == "AAA"));
        }
        _ => panic!("items is not a list"),
    }
    assert!(matches!(&a[1].value, Value::Date(d) if d == "2024-01-01"));
    assert!(matches!(&a[2].value, Value::Date(d) if d == "2024-03-01"));
}

#[test]
fn today_keyword_and_duration() {
    let program = parse_script("CHART(to=today, span=30d, n=-2.5, label=\"x y\")").unwrap();
    let a = args(&program.commands[0]);
    assert!(matches!(&a[0].value, Value::Keyword(Keyword::Today)));
    assert!(matches!(&a[1].value, Value::Duration(d) if d == "30d"));
    assert!(matches!(&a[2].value, Value::Number(n) if n == "-2.5"));
    assert!(matches!(&a[3].value, Value::String(s) if s == "x y"));
}

#[test]
fn sort_with_function_call() {
    let program = parse_script("PLOT(items=[AAA]) & SORT(item=MA(5), dir=desc)").unwrap();
    assert_eq!(program.commands.len(), 2);
    let a = args(&program.commands[1]);
    match &a[0].value {
        Value::FunctionCall(c) => {
            assert_eq!(c.name, "MA");
            assert_eq!(c.args.len(), 1);
            assert!(matches!(&c.args[0], FunctionArg::Number(n) if n == "5"));
        }
        _ => panic!("item is not a call"),
    }
    assert!(matches!(&a[1].value, Value::Ident(d) if d == "desc"));
}

#[test]
fn filter_logical_chain() {
    let program = parse_script("FILTER(conditions=price > 15 AND change <= 0)").unwrap();
    let a = args(&program.commands[0]);
    match &a[0].value {
        Value::LogicalExpr(LogicalExpr::BinaryOp { left, op, right }) => {
            assert_eq!(*op, LogicalOp::And);
            match (&**left, &**right) {
                (
                    LogicalExpr::Comparison { left: Operand::Ident(l), op: Comparator::Gt, right: Operand::Number(r) },
                    LogicalExpr::Comparison { op: Comparator::Lte, .. },
                ) => {
                    assert_eq!(l, "price");
                    assert_eq!(r, "15");
                }
                _ => panic!("unexpected comparisons"),
            }
        }
        _ => panic!("conditions is not a logical chain"),
    }
}

#[test]
fn arithmetic_group_and_chain() {
    let program = parse_script("CHART(items=[(SBITOP / 2), A + B - C])").unwrap();
    let a = args(&program.commands[0]);
    match &a[0].value {
        Value::List(vs) => {
            assert_eq!(vs.len(), 2);
            match &vs[0] {
                Value::ArithmeticExpr(Expr::Group(inner)) => match &**inner {
                    Expr::BinaryOp { op, .. } => assert_eq!(*op, ArithmeticOp::Div),
                    _ => panic!("group without operator"),
                },
                _ => panic!("first item is not a group"),
            }
            match &vs[1] {
                Value::ArithmeticExpr(Expr::BinaryOp { left, op, .. }) => {
                    assert_eq!(*op, ArithmeticOp::Sub);
                    assert!(matches!(&**left, Expr::BinaryOp { op: ArithmeticOp::Add, .. }));
                }
                _ => panic!("second item is not a chain"),
            }
        }
        _ => panic!("items is not a list"),
    }
}

#[test]
fn tuple_value() {
    let program = parse_script("BACKTEST(window=(1, 2))").unwrap();
    let a = args(&program.commands[0]);
    assert!(matches!(&a[0].value, Value::Tuple(vs) if vs.len() == 2));
}

#[test]
fn empty_segments_are_dropped() {
    let program = parse_script("  & FILTER &&  ").unwrap();
    assert_eq!(program.commands.len(), 1);
    assert!(parse_script("").unwrap().commands.is_empty());
}

#[test]
fn unknown_command_is_an_error() {
    assert!(matches!(parse_script("FROB(x=1)"), Err(ParseError::UnknownCommand)));
    assert!(matches!(parse_command("PLOTX"), Err(ParseError::UnknownCommand)));
}

#[test]
fn malformed_arguments_are_an_error() {
    assert!(matches!(parse_script("PLOT(items=[AAA)"), Err(ParseError::Malformed)));
    assert!(matches!(parse_script("SORT(item=)"), Err(ParseError::Malformed)));
    assert!(matches!(parse_script("FILTER(conditions=price > 15) extra"), Err(ParseError::Malformed)));
}

#[test]
fn script_parser_entry() {
    let program = ScriptParser::parse("SORT(item=price, limit=2)").unwrap();
    assert_eq!(program.commands.len(), 1);
}
