//! What each command's arguments ask for: the date window, PLOT's rebase,
//! SORT's ranking mode, FILTER's condition and the `items` that start an
//! evaluation. Invalid or conflicting arguments are typed errors.
use vstd::prelude::*;
use crate::ast::{
    command_m, named_arg_m, named_args_m, value_m, Command, CommandM, Keyword, NamedArg, NamedArgM,
    Program, Value, ValueM, program_m,
};
use crate::dates::{calendar_day_of, parse_date, Date};
use crate::lexer::same_text;
use crate::ranking::Direction;
use crate::tracking::ItemType;

verus! {

#[derive(Clone, Copy, PartialEq, Eq, Debug, Structural)]
pub enum ConfigError {
    /// An argument holds a value of the wrong kind.
    WrongValue,
    /// A date argument is not a valid `YYYY-MM-DD` date.
    InvalidDate,
    /// The window's start lies after its end.
    ReversedWindow,
    /// SORT names a field outside its vocabulary.
    UnknownSortField,
    /// SORT names no ranking mode, or more than one.
    SortModes,
    /// SORT's direction is neither `asc` nor `desc`.
    InvalidDirection,
    /// FILTER has no `conditions`.
    MissingCondition,
}

// ---------------------------------------------------------------------------
// Date window
// ---------------------------------------------------------------------------

/// The window after the arguments `from` and `to` of `args` are applied in
/// order, starting from `(from, to)`; `today` stands for the keyword.
pub open spec fn window_fold(args: Seq<NamedArgM>, from: int, to: int, today: int) -> Result<
    (int, int),
    ConfigError,
>
    decreases args.len(),
{
    if args.len() == 0 {
        Ok((from, to))
    } else {
        let a = args[0];
        let rest = args.drop_first();
        if a.name == "from"@ {
            match a.value {
                ValueM::Date(t) => match calendar_day_of(t) {
                    Some(d) => window_fold(rest, d, to, today),
                    None => Err(ConfigError::InvalidDate),
                },
                _ => Err(ConfigError::WrongValue),
            }
        } else if a.name == "to"@ {
            match a.value {
                ValueM::Date(t) => match calendar_day_of(t) {
                    Some(d) => window_fold(rest, from, d, today),
                    None => Err(ConfigError::InvalidDate),
                },
                ValueM::Keyword(Keyword::Today) => window_fold(rest, from, today, today),
                _ => Err(ConfigError::WrongValue),
            }
        } else {
            window_fold(rest, from, to, today)
        }
    }
}

/// Applies the `from` and `to` arguments of one command to a window.
pub fn apply_window(args: &Vec<NamedArg>, from: Date, to: Date, today: Date) -> (r: Result<
    (Date, Date),
    ConfigError,
>)
    ensures
        match r {
            Ok((f, t)) => window_fold(named_args_m(args), from.day as int, to.day as int, today.day as int)
                == Ok::<(int, int), ConfigError>((f.day as int, t.day as int)),
            Err(e) => window_fold(named_args_m(args), from.day as int, to.day as int, today.day as int)
                == Err::<(int, int), ConfigError>(e),
        },
{
    let ghost am = named_args_m(args);
    let ghost target = window_fold(am, from.day as int, to.day as int, today.day as int);
    let mut f = from;
    let mut t = to;
    let mut k: usize = 0;
    assert(am.subrange(0, am.len() as int) =~= am);
    while k < args.len()
        invariant
            am == named_args_m(args),
            k <= am.len(),
            target == window_fold(am, from.day as int, to.day as int, today.day as int),
            window_fold(am.subrange(k as int, am.len() as int), f.day as int, t.day as int, today.day as int)
                == target,
        decreases am.len() - k,
    {
        let ghost rest = am.subrange(k as int, am.len() as int);
        assert(rest[0] == named_arg_m(&args@[k as int]));
        assert(rest.drop_first() =~= am.subrange(k + 1, am.len() as int));
        let a = &args[k];
        if same_text(a.name.as_str(), "from") {
            match &a.value {
                Value::Date(text) => match parse_date(text.as_str()) {
                    Some(d) => {
                        f = d;
                    },
                    None => return Err(ConfigError::InvalidDate),
                },
                _ => return Err(ConfigError::WrongValue),
            }
        } else if same_text(a.name.as_str(), "to") {
            match &a.value {
                Value::Date(text) => match parse_date(text.as_str()) {
                    Some(d) => {
                        t = d;
                    },
                    None => return Err(ConfigError::InvalidDate),
                },
                Value::Keyword(Keyword::Today) => {
                    t = today;
                },
                _ => return Err(ConfigError::WrongValue),
            }
        }
        k += 1;
    }
    assert(am.subrange(k as int, am.len() as int) =~= Seq::<NamedArgM>::empty());
    Ok((f, t))
}

/// The window after the pre-scan: every command's `from`/`to`, in order.
pub open spec fn prescan_fold(cmds: Seq<CommandM>, from: int, to: int, today: int) -> Result<
    (int, int),
    ConfigError,
>
    decreases cmds.len(),
{
    if cmds.len() == 0 {
        Ok((from, to))
    } else {
        match window_fold(cmds[0].args, from, to, today) {
            Ok((f, t)) => prescan_fold(cmds.drop_first(), f, t, today),
            Err(e) => Err(e),
        }
    }
}

/// The evaluation window of a program: the default window, then every
/// command's `from`/`to` in written order, then once more the first
/// command's (the initialization step). A start after the end is rejected.
pub open spec fn program_window(cmds: Seq<CommandM>, default_from: int, today: int) -> Result<
    (int, int),
    ConfigError,
> {
    match prescan_fold(cmds, default_from, today, today) {
        Ok((f, t)) => {
            let again = if cmds.len() > 0 {
                window_fold(cmds[0].args, f, t, today)
            } else {
                Ok((f, t))
            };
            match again {
                Ok((f2, t2)) => if f2 <= t2 {
                    Ok((f2, t2))
                } else {
                    Err(ConfigError::ReversedWindow)
                },
                Err(e) => Err(e),
            }
        },
        Err(e) => Err(e),
    }
}

pub fn args_of(c: &Command) -> (r: &Vec<NamedArg>)
    ensures
        named_args_m(r) == command_m(c).args,
{
    match c {
        Command::Filter(a) => a,
        Command::Sort(a) => a,
        Command::Backtest(a) => a,
        Command::Plot(a) => a,
    }
}

/// The date window an evaluation of `program` runs over.
pub fn evaluation_window(program: &Program, default_from: Date, today: Date) -> (r: Result<
    (Date, Date),
    ConfigError,
>)
    ensures
        match r {
            Ok((f, t)) => program_window(program_m(program), default_from.day as int, today.day as int)
                == Ok::<(int, int), ConfigError>((f.day as int, t.day as int)),
            Err(e) => program_window(program_m(program), default_from.day as int, today.day as int)
                == Err::<(int, int), ConfigError>(e),
        },
{
    let ghost cm = program_m(program);
    let mut f = default_from;
    let mut t = today;
    let mut k: usize = 0;
    assert(cm.subrange(0, cm.len() as int) =~= cm);
    while k < program.commands.len()
        invariant
            cm == program_m(program),
            k <= cm.len(),
            prescan_fold(cm, default_from.day as int, today.day as int, today.day as int)
                == prescan_fold(cm.subrange(k as int, cm.len() as int), f.day as int, t.day as int, today.day as int),
        decreases cm.len() - k,
    {
        let ghost rest = cm.subrange(k as int, cm.len() as int);
        assert(rest[0] == command_m(&program.commands@[k as int]));
        assert(rest.drop_first() =~= cm.subrange(k + 1, cm.len() as int));
        match apply_window(args_of(&program.commands[k]), f, t, today) {
            Ok((f2, t2)) => {
                f = f2;
                t = t2;
            },
            Err(e) => return Err(e),
        }
        k += 1;
    }
    assert(cm.subrange(k as int, cm.len() as int) =~= Seq::<CommandM>::empty());
    if program.commands.len() > 0 {
        assert(cm[0] == command_m(&program.commands@[0]));
        match apply_window(args_of(&program.commands[0]), f, t, today) {
            Ok((f2, t2)) => {
                f = f2;
                t = t2;
            },
            Err(e) => return Err(e),
        }
    }
    if f.day <= t.day {
        Ok((f, t))
    } else {
        Err(ConfigError::ReversedWindow)
    }
}

/// Whether the program has a PLOT command and whether it has a BACKTEST
/// command: these decide what the response carries.
pub fn output_needs(program: &Program) -> (r: (bool, bool))
    ensures
        r.0 == exists|k: int| 0 <= k < program.commands@.len() && program.commands@[k] is Plot,
        r.1 == exists|k: int| 0 <= k < program.commands@.len() && program.commands@[k] is Backtest,
{
    let mut plot = false;
    let mut backtest = false;
    let mut k: usize = 0;
    while k < program.commands.len()
        invariant
            k <= program.commands@.len(),
            plot == exists|j: int| 0 <= j < k && program.commands@[j] is Plot,
            backtest == exists|j: int| 0 <= j < k && program.commands@[j] is Backtest,
        decreases program.commands@.len() - k,
    {
        match &program.commands[k] {
            Command::Plot(_) => {
                plot = true;
            },
            Command::Backtest(_) => {
                backtest = true;
            },
            _ => {},
        }
        k += 1;
    }
    (plot, backtest)
}

// ---------------------------------------------------------------------------
// PLOT
// ---------------------------------------------------------------------------

/// The rebase target PLOT asks for: the number text of its last `rebase`
/// argument. A `rebase` that is not a number is an error.
pub open spec fn rebase_fold(args: Seq<NamedArgM>, cur: Option<Seq<char>>) -> Result<
    Option<Seq<char>>,
    ConfigError,
>
    decreases args.len(),
{
    if args.len() == 0 {
        Ok(cur)
    } else if args[0].name == "rebase"@ {
        match args[0].value {
            ValueM::Number(t) => rebase_fold(args.drop_first(), Some(t)),
            _ => Err(ConfigError::WrongValue),
        }
    } else {
        rebase_fold(args.drop_first(), cur)
    }
}

pub fn plot_rebase(args: &Vec<NamedArg>) -> (r: Result<Option<String>, ConfigError>)
    ensures
        match r {
            Ok(Some(t)) => rebase_fold(named_args_m(args), None) == Ok::<Option<Seq<char>>, ConfigError>(Some(t@)),
            Ok(None) => rebase_fold(named_args_m(args), None) == Ok::<Option<Seq<char>>, ConfigError>(None),
            Err(e) => rebase_fold(named_args_m(args), None) == Err::<Option<Seq<char>>, ConfigError>(e),
        },
{
    let ghost am = named_args_m(args);
    let mut cur: Option<String> = None;
    let mut k: usize = 0;
    assert(am.subrange(0, am.len() as int) =~= am);
    while k < args.len()
        invariant
            am == named_args_m(args),
            k <= am.len(),
            rebase_fold(am, None) == rebase_fold(
                am.subrange(k as int, am.len() as int),
                match cur {
                    Some(t) => Some(t@),
                    None => None,
                },
            ),
        decreases am.len() - k,
    {
        let ghost rest = am.subrange(k as int, am.len() as int);
        assert(rest[0] == named_arg_m(&args@[k as int]));
        assert(rest.drop_first() =~= am.subrange(k + 1, am.len() as int));
        if same_text(args[k].name.as_str(), "rebase") {
            match &args[k].value {
                Value::Number(t) => {
                    cur = Some(String::from_str(t.as_str()));
                },
                _ => return Err(ConfigError::WrongValue),
            }
        }
        k += 1;
    }
    assert(am.subrange(k as int, am.len() as int) =~= Seq::<NamedArgM>::empty());
    Ok(cur)
}

// ---------------------------------------------------------------------------
// FILTER
// ---------------------------------------------------------------------------

/// The position of the argument FILTER evaluates: the last `conditions`
/// argument that holds a logical expression.
pub open spec fn condition_index(args: Seq<NamedArgM>) -> Option<int>
    decreases args.len(),
{
    if args.len() == 0 {
        None
    } else if args.last().name == "conditions"@ && args.last().value is Logical {
        Some(args.len() - 1)
    } else {
        condition_index(args.drop_last())
    }
}

pub fn filter_condition(args: &Vec<NamedArg>) -> (r: Result<usize, ConfigError>)
    ensures
        match r {
            Ok(i) => condition_index(named_args_m(args)) == Some(i as int),
            Err(e) => condition_index(named_args_m(args)) is None && e == ConfigError::MissingCondition,
        },
{
    let ghost am = named_args_m(args);
    let mut k: usize = args.len();
    assert(am.subrange(0, am.len() as int) =~= am);
    while k > 0
        invariant
            am == named_args_m(args),
            k <= am.len(),
            condition_index(am) == condition_index(am.subrange(0, k as int)),
        decreases k,
    {
        let ghost pre = am.subrange(0, k as int);
        assert(pre.last() == named_arg_m(&args@[k - 1]));
        assert(pre.drop_last() =~= am.subrange(0, k - 1));
        if same_text(args[k - 1].name.as_str(), "conditions") {
            if let Value::LogicalExpr(_) = &args[k - 1].value {
                return Ok(k - 1);
            }
        }
        k -= 1;
    }
    Err(ConfigError::MissingCondition)
}

/// Fields a FILTER condition can read of an instrument.
#[derive(Clone, Copy, PartialEq, Eq, Debug, Structural)]
pub enum FilterField {
    Price,
    Change,
    Country,
    MarketCap,
}

pub open spec fn filter_field_of(name: Seq<char>) -> Option<FilterField> {
    if name == "price"@ {
        Some(FilterField::Price)
    } else if name == "change"@ {
        Some(FilterField::Change)
    } else if name == "country"@ {
        Some(FilterField::Country)
    } else if name == "market_cap"@ {
        Some(FilterField::MarketCap)
    } else {
        None
    }
}

pub fn filter_field(name: &str) -> (r: Option<FilterField>)
    ensures
        r == filter_field_of(name@),
{
    if same_text(name, "price") {
        Some(FilterField::Price)
    } else if same_text(name, "change") {
        Some(FilterField::Change)
    } else if same_text(name, "country") {
        Some(FilterField::Country)
    } else if same_text(name, "market_cap") {
        Some(FilterField::MarketCap)
    } else {
        None
    }
}

/// The `country` value of an instrument: 0 on the home market `XZAG`,
/// 1 elsewhere.
pub fn country_flag(mic: &str) -> (r: u8)
    ensures
        r == (if mic@ == "XZAG"@ { 0u8 } else { 1u8 }),
{
    if same_text(mic, "XZAG") {
        0
    } else {
        1
    }
}

// ---------------------------------------------------------------------------
// SORT
// ---------------------------------------------------------------------------

#[derive(Clone, Copy, PartialEq, Eq, Debug, Structural)]
pub enum SortField {
    MarketCap,
    Price,
    Quantity,
    SectorId,
    ChangePrevClosePercentage,
    Mic,
    Country,
    Symbol,
    Name,
    Isin,
}

pub open spec fn sort_field_of(name: Seq<char>) -> Option<SortField> {
    if name == "market_cap"@ {
        Some(SortField::MarketCap)
    } else if name == "price"@ {
        Some(SortField::Price)
    } else if name == "quantity"@ {
        Some(SortField::Quantity)
    } else if name == "sector_id"@ {
        Some(SortField::SectorId)
    } else if name == "change_prev_close_percentage"@ {
        Some(SortField::ChangePrevClosePercentage)
    } else if name == "mic"@ {
        Some(SortField::Mic)
    } else if name == "country"@ {
        Some(SortField::Country)
    } else if name == "symbol"@ {
        Some(SortField::Symbol)
    } else if name == "name"@ {
        Some(SortField::Name)
    } else if name == "isin"@ {
        Some(SortField::Isin)
    } else {
        None
    }
}

pub fn sort_field(name: &str) -> (r: Option<SortField>)
    ensures
        r == sort_field_of(name@),
{
    if same_text(name, "market_cap") {
        Some(SortField::MarketCap)
    } else if same_text(name, "price") {
        Some(SortField::Price)
    } else if same_text(name, "quantity") {
        Some(SortField::Quantity)
    } else if same_text(name, "sector_id") {
        Some(SortField::SectorId)
    } else if same_text(name, "change_prev_close_percentage") {
        Some(SortField::ChangePrevClosePercentage)
    } else if same_text(name, "mic") {
        Some(SortField::Mic)
    } else if same_text(name, "country") {
        Some(SortField::Country)
    } else if same_text(name, "symbol") {
        Some(SortField::Symbol)
    } else if same_text(name, "name") {
        Some(SortField::Name)
    } else if same_text(name, "isin") {
        Some(SortField::Isin)
    } else {
        None
    }
}

/// How SORT ranks: by a field, or by the last value of a function's or an
/// expression's series; the index is that of the `item` argument.
#[derive(Clone, Copy, PartialEq, Eq, Debug, Structural)]
pub enum SortMode {
    Field(SortField),
    Function(usize),
    Expression(usize),
}

#[derive(Clone, Copy, PartialEq, Eq, Debug, Structural)]
pub struct SortConfig {
    pub mode: SortMode,
    pub dir: Direction,
    pub limit: Option<u64>,
}

/// The state of reading SORT's arguments: the last field, function and
/// expression `item`, the direction and the limit text.
pub struct SortScan {
    pub field: Option<SortField>,
    pub function: Option<int>,
    pub expression: Option<int>,
    pub dir: Direction,
    pub limit: Option<Seq<char>>,
}

/// One argument's effect on the SORT configuration read so far.
pub open spec fn sort_step(a: NamedArgM, k: int, st: SortScan) -> Result<SortScan, ConfigError> {
    if a.name == "item"@ {
        match a.value {
            ValueM::Ident(f) => match sort_field_of(f) {
                Some(x) => Ok(SortScan { field: Some(x), ..st }),
                None => Err(ConfigError::UnknownSortField),
            },
            ValueM::Call(_) => Ok(SortScan { function: Some(k), ..st }),
            ValueM::Arith(_) => Ok(SortScan { expression: Some(k), ..st }),
            _ => Err(ConfigError::WrongValue),
        }
    } else if a.name == "dir"@ {
        match a.value {
            ValueM::Ident(d) => if d == "asc"@ {
                Ok(SortScan { dir: Direction::Asc, ..st })
            } else if d == "desc"@ {
                Ok(SortScan { dir: Direction::Desc, ..st })
            } else {
                Err(ConfigError::InvalidDirection)
            },
            _ => Err(ConfigError::WrongValue),
        }
    } else if a.name == "limit"@ {
        match a.value {
            ValueM::Number(t) => Ok(SortScan { limit: Some(t), ..st }),
            _ => Err(ConfigError::WrongValue),
        }
    } else {
        Ok(st)
    }
}

pub open spec fn sort_fold(args: Seq<NamedArgM>, k: int, st: SortScan) -> Result<SortScan, ConfigError>
    decreases args.len() - k,
{
    if k < 0 || k >= args.len() {
        Ok(st)
    } else {
        match sort_step(args[k], k, st) {
            Ok(next) => sort_fold(args, k + 1, next),
            Err(e) => Err(e),
        }
    }
}

/// The whole part of a number text as a count: 0 for a negative number,
/// at most `u64::MAX`.
pub open spec fn digits_value(t: Seq<char>) -> nat
    decreases t.len(),
{
    if t.len() == 0 {
        0
    } else {
        (digits_value(t.drop_last()) * 10 + (t.last() as int - '0' as int)) as nat
    }
}

pub open spec fn whole_digits(t: Seq<char>) -> Seq<char>
    decreases t.len(),
{
    if t.len() == 0 || !('0' <= t[0] && t[0] <= '9') {
        seq![]
    } else {
        seq![t[0]] + whole_digits(t.drop_first())
    }
}

pub open spec fn truncated_count(t: Seq<char>) -> nat {
    if t.len() > 0 && t[0] == '-' {
        0
    } else {
        let v = digits_value(whole_digits(t));
        if v > u64::MAX {
            u64::MAX as nat
        } else {
            v
        }
    }
}

/// The whole part of a number literal as an unsigned count, saturating;
/// negative numbers give 0.
pub fn truncate_count(t: &str) -> (r: u64)
    ensures
        r == truncated_count(t@),
{
    let n = t.unicode_len();
    if n > 0 && t.get_char(0) == '-' {
        return 0;
    }
    let mut v: u64 = 0;
    let mut saturated = false;
    let mut k: usize = 0;
    assert(t@.subrange(0, 0) =~= Seq::<char>::empty());
    assert(t@.subrange(0, n as int) =~= t@);
    assert(Seq::<char>::empty() + t@ =~= t@);
    while k < n && '0' <= t.get_char(k) && t.get_char(k) <= '9'
        invariant
            n == t@.len(),
            k <= n,
            !(n > 0 && t@[0] == '-'),
            whole_digits(t@) == t@.subrange(0, k as int) + whole_digits(t@.subrange(k as int, n as int)),
            forall|j: int| 0 <= j < k ==> '0' <= t@[j] && t@[j] <= '9',
            saturated ==> digits_value(t@.subrange(0, k as int)) > u64::MAX,
            !saturated ==> v == digits_value(t@.subrange(0, k as int)),
        decreases n - k,
    {
        let c = t.get_char(k);
        let ghost rest = t@.subrange(k as int, n as int);
        assert(rest[0] == c);
        assert(rest.drop_first() =~= t@.subrange(k + 1, n as int));
        assert(t@.subrange(0, k + 1) =~= t@.subrange(0, k as int) + seq![c]);
        assert(t@.subrange(0, k + 1).drop_last() =~= t@.subrange(0, k as int));
        let d = (c as u32 - '0' as u32) as u64;
        assert(digits_value(t@.subrange(0, k + 1)) == digits_value(t@.subrange(0, k as int)) * 10 + (
        c as int - '0' as int));
        if !saturated {
            if v > (u64::MAX - d) / 10 {
                saturated = true;
                assert(v * 10 + d > u64::MAX) by (nonlinear_arith)
                    requires v > (u64::MAX - d) / 10, d <= 9;
            } else {
                assert(v * 10 + d <= u64::MAX) by (nonlinear_arith)
                    requires v <= (u64::MAX - d) / 10, d <= 9;
                v = v * 10 + d;
            }
        } else {
            let ghost x = digits_value(t@.subrange(0, k + 1)) as int;
            let ghost y = digits_value(t@.subrange(0, k as int)) as int;
            let ghost dd = c as int - '0' as int;
            assert(dd >= 0);
            assert(x >= y) by (nonlinear_arith)
                requires x == y * 10 + dd, dd >= 0, y >= 0;
        }
        k += 1;
    }
    assert(whole_digits(t@.subrange(k as int, n as int)) =~= Seq::<char>::empty());
    assert(t@.subrange(0, k as int) + Seq::<char>::empty() =~= t@.subrange(0, k as int));
    if saturated {
        u64::MAX
    } else {
        v
    }
}

/// What SORT's arguments configure: exactly one ranking mode, a direction
/// (ascending unless `dir=desc`) and an optional limit.
pub open spec fn sort_config_m(args: Seq<NamedArgM>) -> Result<SortConfig, ConfigError> {
    let init = SortScan { field: None, function: None, expression: None, dir: Direction::Asc, limit: None };
    match sort_fold(args, 0, init) {
        Err(e) => Err(e),
        Ok(st) => {
            let limit = match st.limit {
                Some(t) => Some(truncated_count(t) as u64),
                None => None,
            };
            match (st.field, st.function, st.expression) {
                (Some(f), None, None) => Ok(SortConfig { mode: SortMode::Field(f), dir: st.dir, limit }),
                (None, Some(i), None) => Ok(
                    SortConfig { mode: SortMode::Function(i as usize), dir: st.dir, limit },
                ),
                (None, None, Some(i)) => Ok(
                    SortConfig { mode: SortMode::Expression(i as usize), dir: st.dir, limit },
                ),
                _ => Err(ConfigError::SortModes),
            }
        },
    }
}

pub fn sort_config(args: &Vec<NamedArg>) -> (r: Result<SortConfig, ConfigError>)
    ensures
        r == sort_config_m(named_args_m(args)),
{
    let ghost am = named_args_m(args);
    let mut field: Option<SortField> = None;
    let mut function: Option<usize> = None;
    let mut expression: Option<usize> = None;
    let mut dir = Direction::Asc;
    let mut limit: Option<u64> = None;
    let ghost init = SortScan { field: None, function: None, expression: None, dir: Direction::Asc, limit: None };
    let ghost mut st = init;
    let mut k: usize = 0;
    while k < args.len()
        invariant
            am == named_args_m(args),
            k <= am.len(),
            init == (SortScan {
                field: None,
                function: None,
                expression: None,
                dir: Direction::Asc,
                limit: None,
            }),
            sort_fold(am, 0, init) == sort_fold(am, k as int, st),
            st.field == field,
            st.function == (match function {
                Some(i) => Some(i as int),
                None => None,
            }),
            st.expression == (match expression {
                Some(i) => Some(i as int),
                None => None,
            }),
            st.dir == dir,
            st.limit is None <==> limit is None,
            st.limit matches Some(t) ==> limit == Some(truncated_count(t) as u64),
        decreases am.len() - k,
    {
        assert(am[k as int] == named_arg_m(&args@[k as int]));
        let ghost step = sort_step(am[k as int], k as int, st);
        let a = &args[k];
        if same_text(a.name.as_str(), "item") {
            match &a.value {
                Value::Ident(f) => match sort_field(f.as_str()) {
                    Some(x) => {
                        field = Some(x);
                    },
                    None => {
                        return Err(ConfigError::UnknownSortField);
                    },
                },
                Value::FunctionCall(_) => {
                    function = Some(k);
                },
                Value::ArithmeticExpr(_) => {
                    expression = Some(k);
                },
                _ => return Err(ConfigError::WrongValue),
            }
        } else if same_text(a.name.as_str(), "dir") {
            match &a.value {
                Value::Ident(d) => {
                    if same_text(d.as_str(), "asc") {
                        dir = Direction::Asc;
                    } else if same_text(d.as_str(), "desc") {
                        dir = Direction::Desc;
                    } else {
                        return Err(ConfigError::InvalidDirection);
                    }
                },
                _ => return Err(ConfigError::WrongValue),
            }
        } else if same_text(a.name.as_str(), "limit") {
            match &a.value {
                Value::Number(t) => {
                    limit = Some(truncate_count(t.as_str()));

                },
                _ => return Err(ConfigError::WrongValue),
            }
        }
        proof {
            st = step->Ok_0;
        }
        k += 1;
    }
    match (field, function, expression) {
        (Some(f), None, None) => Ok(SortConfig { mode: SortMode::Field(f), dir, limit }),
        (None, Some(i), None) => Ok(SortConfig { mode: SortMode::Function(i), dir, limit }),
        (None, None, Some(i)) => Ok(SortConfig { mode: SortMode::Expression(i), dir, limit }),
        _ => Err(ConfigError::SortModes),
    }
}

/// Which value of an instrument's metadata a field reads.
#[derive(Clone, Copy, PartialEq, Eq, Debug, Structural)]
pub enum FieldSource {
    /// Shares outstanding times last price.
    QuantityTimesPrice,
    LastPrice,
    /// The index level.
    IndexLevel,
    Quantity,
    Change,
    SectorId,
    /// The first character of the ISIN.
    IsinInitial,
    Mic,
    Symbol,
    Name,
    Isin,
    /// A constant zero.
    Zero,
    /// A constant empty text.
    EmptyText,
    /// The instrument has no metadata: the key is missing.
    Missing,
}

/// What a SORT field reads of an instrument of kind `kind`. For an index,
/// `market_cap` reads the index level.
pub open spec fn sort_source_of(field: SortField, kind: ItemType) -> FieldSource {
    match kind {
        ItemType::Derived => FieldSource::Missing,
        ItemType::Stock => match field {
            SortField::MarketCap => FieldSource::QuantityTimesPrice,
            SortField::Price => FieldSource::LastPrice,
            SortField::Quantity => FieldSource::Quantity,
            SortField::SectorId => FieldSource::SectorId,
            SortField::ChangePrevClosePercentage => FieldSource::Change,
            SortField::Mic => FieldSource::Mic,
            SortField::Country => FieldSource::IsinInitial,
            SortField::Symbol => FieldSource::Symbol,
            SortField::Name => FieldSource::Name,
            SortField::Isin => FieldSource::Isin,
        },
        ItemType::Index => match field {
            SortField::MarketCap => FieldSource::IndexLevel,
            SortField::Price => FieldSource::IndexLevel,
            SortField::Quantity => FieldSource::Zero,
            SortField::SectorId => FieldSource::EmptyText,
            SortField::ChangePrevClosePercentage => FieldSource::Change,
            SortField::Mic => FieldSource::Mic,
            SortField::Country => FieldSource::IsinInitial,
            SortField::Symbol => FieldSource::Symbol,
            SortField::Name => FieldSource::Name,
            SortField::Isin => FieldSource::Isin,
        },
    }
}

pub fn sort_source(field: SortField, kind: ItemType) -> (r: FieldSource)
    ensures
        r == sort_source_of(field, kind),
{
    match kind {
        ItemType::Derived => FieldSource::Missing,
        ItemType::Stock => match field {
            SortField::MarketCap => FieldSource::QuantityTimesPrice,
            SortField::Price => FieldSource::LastPrice,
            SortField::Quantity => FieldSource::Quantity,
            SortField::SectorId => FieldSource::SectorId,
            SortField::ChangePrevClosePercentage => FieldSource::Change,
            SortField::Mic => FieldSource::Mic,
            SortField::Country => FieldSource::IsinInitial,
            SortField::Symbol => FieldSource::Symbol,
            SortField::Name => FieldSource::Name,
            SortField::Isin => FieldSource::Isin,
        },
        ItemType::Index => match field {
            SortField::MarketCap => FieldSource::IndexLevel,
            SortField::Price => FieldSource::IndexLevel,
            SortField::Quantity => FieldSource::Zero,
            SortField::SectorId => FieldSource::EmptyText,
            SortField::ChangePrevClosePercentage => FieldSource::Change,
            SortField::Mic => FieldSource::Mic,
            SortField::Country => FieldSource::IsinInitial,
            SortField::Symbol => FieldSource::Symbol,
            SortField::Name => FieldSource::Name,
            SortField::Isin => FieldSource::Isin,
        },
    }
}

/// What a FILTER field reads of an instrument of kind `kind`. For an index,
/// `market_cap` is zero; `country` is read through `country_flag`.
pub open spec fn filter_source_of(field: FilterField, kind: ItemType) -> FieldSource {
    match kind {
        ItemType::Derived => FieldSource::Missing,
        _ => match field {
            FilterField::Price => if kind == ItemType::Stock {
                FieldSource::LastPrice
            } else {
                FieldSource::IndexLevel
            },
            FilterField::Change => FieldSource::Change,
            FilterField::Country => FieldSource::Mic,
            FilterField::MarketCap => if kind == ItemType::Stock {
                FieldSource::QuantityTimesPrice
            } else {
                FieldSource::Zero
            },
        },
    }
}

pub fn filter_source(field: FilterField, kind: ItemType) -> (r: FieldSource)
    ensures
        r == filter_source_of(field, kind),
{
    match kind {
        ItemType::Derived => FieldSource::Missing,
        _ => match field {
            FilterField::Price => if kind == ItemType::Stock {
                FieldSource::LastPrice
            } else {
                FieldSource::IndexLevel
            },
            FilterField::Change => FieldSource::Change,
            FilterField::Country => FieldSource::Mic,
            FilterField::MarketCap => if kind == ItemType::Stock {
                FieldSource::QuantityTimesPrice
            } else {
                FieldSource::Zero
            },
        },
    }
}

// ---------------------------------------------------------------------------
// Initialization
// ---------------------------------------------------------------------------

/// One step of starting an evaluation, from one element of `items`.
#[derive(Clone, Copy, PartialEq, Eq, Debug, Structural)]
pub enum InitStep {
    /// Track every stock of the data provider.
    AllStocks,
    /// Track every index of the data provider.
    AllIndexes,
    /// Fetch and track the instrument named by element `i`.
    Instrument(usize),
    /// Compute the function call at element `i` for the tracked instruments.
    Function(usize),
    /// Compute and track the arithmetic expression at element `i`.
    Expression(usize),
}

pub open spec fn steps_of_item(v: ValueM, i: int) -> Seq<InitStep> {
    match v {
        ValueM::Ident(t) => if t == "stocks"@ {
            seq![InitStep::AllStocks]
        } else if t == "indexes"@ {
            seq![InitStep::AllIndexes]
        } else if t == "all"@ {
            seq![InitStep::AllStocks, InitStep::AllIndexes]
        } else {
            seq![InitStep::Instrument(i as usize)]
        },
        ValueM::Call(_) => seq![InitStep::Function(i as usize)],
        ValueM::Arith(_) => seq![InitStep::Expression(i as usize)],
        _ => seq![],
    }
}

pub open spec fn steps_of_items(items: Seq<ValueM>) -> Seq<InitStep>
    decreases items.len(),
{
    if items.len() == 0 {
        seq![]
    } else {
        steps_of_items(items.drop_last()) + steps_of_item(items.last(), items.len() - 1)
    }
}

/// The steps the `items` list asks for, element by element; other elements
/// are passed over.
pub fn init_steps(items: &Vec<Value>) -> (r: Vec<InitStep>)
    ensures
        r@ == steps_of_items(items@.map_values(|v: Value| value_m(&v))),
{
    let ghost im = items@.map_values(|v: Value| value_m(&v));
    let mut r: Vec<InitStep> = Vec::new();
    let mut k: usize = 0;
    assert(im.subrange(0, 0) =~= Seq::<ValueM>::empty());
    while k < items.len()
        invariant
            im == items@.map_values(|v: Value| value_m(&v)),
            k <= im.len(),
            r@ == steps_of_items(im.subrange(0, k as int)),
        decreases im.len() - k,
    {
        let ghost pre = im.subrange(0, k + 1);
        assert(pre.drop_last() =~= im.subrange(0, k as int));
        assert(pre.last() == value_m(&items@[k as int]));
        let ghost before = r@;
        match &items[k] {
            Value::Ident(t) => {
                if same_text(t.as_str(), "stocks") {
                    r.push(InitStep::AllStocks);
                } else if same_text(t.as_str(), "indexes") {
                    r.push(InitStep::AllIndexes);
                } else if same_text(t.as_str(), "all") {
                    r.push(InitStep::AllStocks);
                    r.push(InitStep::AllIndexes);
                } else {
                    r.push(InitStep::Instrument(k));
                }
            },
            Value::FunctionCall(_) => r.push(InitStep::Function(k)),
            Value::ArithmeticExpr(_) => r.push(InitStep::Expression(k)),
            _ => {},
        }
        assert(r@ =~= before + steps_of_item(value_m(&items@[k as int]), k as int));
        k += 1;
    }
    assert(im.subrange(0, im.len() as int) =~= im);
    r
}

/// The `items` list of a command's arguments (the last `items` argument), or
/// an error when it holds something other than a list.
pub open spec fn items_index(args: Seq<NamedArgM>) -> Option<int>
    decreases args.len(),
{
    if args.len() == 0 {
        None
    } else if args.last().name == "items"@ {
        Some(args.len() - 1)
    } else {
        items_index(args.drop_last())
    }
}

pub fn items_arg(args: &Vec<NamedArg>) -> (r: Result<Option<&Vec<Value>>, ConfigError>)
    ensures
        match items_index(named_args_m(args)) {
            None => r == Ok::<Option<&Vec<Value>>, ConfigError>(None),
            Some(i) => match args@[i].value {
                Value::List(vs) => r == Ok::<Option<&Vec<Value>>, ConfigError>(Some(&vs)),
                _ => r == Err::<Option<&Vec<Value>>, ConfigError>(ConfigError::WrongValue),
            },
        },
{
    let ghost am = named_args_m(args);
    let mut k: usize = args.len();
    assert(am.subrange(0, am.len() as int) =~= am);
    while k > 0
        invariant
            am == named_args_m(args),
            k <= am.len(),
            items_index(am) == items_index(am.subrange(0, k as int)),
        decreases k,
    {
        let ghost pre = am.subrange(0, k as int);
        assert(pre.last() == named_arg_m(&args@[k - 1]));
        assert(pre.drop_last() =~= am.subrange(0, k - 1));
        if same_text(args[k - 1].name.as_str(), "items") {
            return match &args[k - 1].value {
                Value::List(vs) => Ok(Some(vs)),
                _ => Err(ConfigError::WrongValue),
            };
        }
        k -= 1;
    }
    Ok(None)
}

// ---------------------------------------------------------------------------
// Pipeline
// ---------------------------------------------------------------------------

/// The pipeline's state: before its first command, or running. The first
/// command, whatever its kind, runs the initialization first.
#[derive(Clone, Copy, PartialEq, Eq, Debug, Structural)]
pub enum PipelineState {
    Uninitialized,
    Running,
}

/// Starts the next command: says whether it must run the initialization,
/// which happens exactly once, before the first command.
pub fn start_command(state: &mut PipelineState) -> (initialize: bool)
    ensures
        initialize == (*old(state) == PipelineState::Uninitialized),
        *final(state) == PipelineState::Running,
{
    let first = *state == PipelineState::Uninitialized;
    *state = PipelineState::Running;
    first
}

} // verus!
