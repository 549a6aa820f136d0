use screener::ast::FunctionArg;
use screener::cache::SeriesCache;
use screener::commands::{filter_source, sort_source, FieldSource};
use screener::charts::{chart_specs, wants_volume, ChartType};
use screener::commands::{
    country_flag, evaluation_window, filter_condition, filter_field, init_steps, items_arg, output_needs,
    plot_rebase, sort_config, start_command, truncate_count, ConfigError, FilterField, InitStep,
    PipelineState, SortField, SortMode,
};
use screener::dates::{date_range_len_of, parse_date, DateRange, DateRangeError};
use screener::ids::{call_id, canonical_number_text, create_function_id, expr_to_id, indicator_to_panel_id};
use screener::indicators::{function_targets, indicator_of, percentile_ranks, Indicator};
use screener::parser::parse_script;
use screener::ranking::{sort_order, take_limit, Direction, SortKey};
use screener::series::join_dates;
use screener::tracking::{ItemType, TrackedItems};
use screener::universe::{all_indexes_symbols, all_stocks_symbols};
use screener::ast::{Command, Value};

fn day(s: &str) -> screener::dates::Date {
    parse_date(s).unwrap()
}

#[test]
fn date_range_length_is_the_day_difference() {
    assert_eq!(date_range_len_of("2024-01-01", "2024-03-01").ok(), Some(60));
    assert_eq!(date_range_len_of("2024-01-01", "2024-01-01").ok(), Some(0));
    assert_eq!(date_range_len_of("2023-12-31", "2024-01-01").ok(), Some(1));
}

#[test]
fn reversed_date_range_is_rejected() {
    assert!(matches!(date_range_len_of("2024-03-01", "2024-01-01"), Err(DateRangeError::Reversed)));
    assert!(matches!(DateRange::new(day("2024-03-01"), day("2024-01-01")), Err(DateRangeError::Reversed)));
    assert!(matches!(date_range_len_of("2024-02-30", "2024-03-01"), Err(DateRangeError::Invalid)));
}

#[test]
fn window_days_are_consecutive() {
    let range = DateRange::new(day("2024-02-27"), day("2024-03-01")).ok().unwrap();
    let days = range.days();
    assert_eq!(days.len(), 4);
    assert_eq!(days[3].day - days[0].day, 3);
    assert_eq!(range.date_range_len(), 3);
}

#[test]
fn arithmetic_join_keeps_common_dates() {
    let left = vec![1, 2, 3];
    let right = vec![2, 3, 4];
    let joined = join_dates(&left, &right);
    let dates: Vec<i32> = joined.iter().map(|p| p.0).collect();
    assert_eq!(dates, vec![2, 3]);
    assert_eq!((joined[0].1, joined[0].2), (1, 0));
    assert_eq!((joined[1].1, joined[1].2), (2, 1));
}

#[test]
fn join_sorts_and_takes_last_points() {
    let left = vec![5, 3, 5, 1];
    let right = vec![1, 5, 9, 5];
    let joined = join_dates(&left, &right);
    assert_eq!(joined, vec![(1, 3, 0), (5, 2, 3)]);
}

#[test]
fn sort_by_price_ascending_descending_and_limit() {
    let keys = vec![SortKey::Number(10), SortKey::Number(20), SortKey::Number(5)];
    assert_eq!(sort_order(&keys, Direction::Asc), vec![2, 0, 1]);
    assert_eq!(sort_order(&keys, Direction::Desc), vec![1, 0, 2]);
    assert_eq!(take_limit(sort_order(&keys, Direction::Asc), Some(2)), vec![2, 0]);
}

#[test]
fn sort_is_stable_and_missing_ranks_lowest() {
    let keys = vec![SortKey::Number(7), SortKey::Missing, SortKey::Number(7), SortKey::Number(1)];
    assert_eq!(sort_order(&keys, Direction::Asc), vec![1, 3, 0, 2]);
    assert_eq!(sort_order(&keys, Direction::Desc), vec![0, 2, 3, 1]);
}

#[test]
fn sort_by_text() {
    let keys = vec![
        SortKey::Text("KRKG".to_string()),
        SortKey::Text("HT".to_string()),
        SortKey::Text("HPB".to_string()),
    ];
    assert_eq!(sort_order(&keys, Direction::Asc), vec![2, 1, 0]);
}

#[test]
fn filter_removes_failing_items() {
    let mut items = TrackedItems::new();
    assert!(items.track("A", ItemType::Stock));
    assert!(items.track("B", ItemType::Stock));
    // price > 15 with A at 10 and B at 30
    let keep: Vec<bool> = [10.0_f64, 30.0].iter().map(|p| *p > 15.0).collect();
    items.retain_flags(&keep);
    assert_eq!(items.len(), 1);
    assert_eq!(items.get(0).id, "B");
    assert!(!items.contains("A"));
}

#[test]
fn tracking_deduplicates() {
    let mut items = TrackedItems::new();
    assert!(items.track("AAA", ItemType::Stock));
    assert!(!items.track("AAA", ItemType::Index));
    assert_eq!(items.len(), 1);
    assert_eq!(items.get(0).item_type, ItemType::Stock);
    assert!(items.track("BBB", ItemType::Derived));
    items.reorder(&vec![1, 0]);
    assert_eq!(items.ids(), vec!["BBB".to_string(), "AAA".to_string()]);
}

#[test]
fn cache_computes_once() {
    let mut cache: SeriesCache<Vec<i64>> = SeriesCache::new();
    assert!(!cache.contains_key("MA_5_AAA"));
    assert!(cache.insert("MA_5_AAA", vec![1, 2]));
    assert!(!cache.insert("MA_5_AAA", vec![9]));
    assert_eq!(cache.get("MA_5_AAA"), Some(&vec![1, 2]));
    assert_eq!(cache.len(), 1);
    assert_eq!(cache.keys(), vec!["MA_5_AAA".to_string()]);
}

#[test]
fn function_ids() {
    let args = vec![FunctionArg::Number("14".to_string()), FunctionArg::Number("2".to_string())];
    assert_eq!(create_function_id("RSIMA", &args, "KRKG"), "RSIMA_14,2_KRKG");
    assert_eq!(create_function_id("MA", &vec![], "X"), "MA__X");
}

#[test]
fn expression_ids() {
    let program = parse_script("PLOT(items=[(A / 2) + MA(5)])").unwrap();
    let expr = match &program.commands[0] {
        Command::Plot(a) => match &a[0].value {
            Value::List(vs) => match &vs[0] {
                Value::ArithmeticExpr(e) => e,
                _ => panic!(),
            },
            _ => panic!(),
        },
        _ => panic!(),
    };
    assert_eq!(expr_to_id(expr, None).unwrap(), "(A/2)+MA_5_");
    assert_eq!(expr_to_id(expr, Some("KRKG")).unwrap(), "(A/2)+MA_5_KRKG");
}

#[test]
fn panel_ids() {
    assert_eq!(indicator_to_panel_id("RSI_14_KRKG"), 1);
    assert_eq!(indicator_to_panel_id("BBWPMA_13,252,5_X"), 1);
    assert_eq!(indicator_to_panel_id("MA_5_AAA"), 0);
    assert_eq!(indicator_to_panel_id("RSIX_1_A"), 0);
    assert_eq!(indicator_to_panel_id("RSI"), 1);
}

#[test]
fn indicator_dispatch() {
    let five = vec![FunctionArg::Number("5.9".to_string())];
    assert_eq!(indicator_of("MA", &five), Some(Indicator::Ma { len: 5 }));
    assert_eq!(indicator_of("BBWP", &vec![]), Some(Indicator::Bbwp { bbw_len: 13, lookback: 252 }));
    assert_eq!(
        indicator_of("BBWPMA", &vec![FunctionArg::Number("10".to_string()), FunctionArg::Number("50".to_string()), FunctionArg::Number("3".to_string())]),
        Some(Indicator::BbwpMa { bbw_len: 10, lookback: 50, ma_len: 3 })
    );
    assert_eq!(indicator_of("FOO", &five), None);
}

#[test]
fn targets_default_to_tracked() {
    let mut items = TrackedItems::new();
    items.track("AAA", ItemType::Stock);
    items.track("BBB", ItemType::Index);
    assert_eq!(function_targets(&vec![FunctionArg::Number("5".to_string())], &items), vec!["AAA".to_string(), "BBB".to_string()]);
    assert_eq!(function_targets(&vec![FunctionArg::Ident("ZVTG".to_string())], &items), vec!["ZVTG".to_string()]);
}

#[test]
fn percentile_counts_stay_in_window() {
    let ranks = percentile_ranks(&vec![5, 3, 4, 9, 1], 3);
    assert_eq!(ranks, vec![(1, 2), (2, 3), (3, 3), (1, 3)]);
    for (count, window) in ranks {
        let pct = count as f64 / window as f64 * 100.0;
        assert!((0.0..=100.0).contains(&pct));
    }
    assert!(percentile_ranks(&vec![], 3).is_empty());
}

#[test]
fn truncated_counts() {
    assert_eq!(truncate_count("5.7"), 5);
    assert_eq!(truncate_count("-3"), 0);
    assert_eq!(truncate_count("99999999999999999999999"), u64::MAX);
}

#[test]
fn sort_configuration_errors() {
    let p = parse_script("SORT(item=price, item=MA(5))").unwrap();
    let a = match &p.commands[0] { Command::Sort(a) => a, _ => panic!() };
    assert_eq!(sort_config(a), Err(ConfigError::SortModes));
    let p = parse_script("SORT(dir=asc)").unwrap();
    let a = match &p.commands[0] { Command::Sort(a) => a, _ => panic!() };
    assert_eq!(sort_config(a), Err(ConfigError::SortModes));
    let p = parse_script("SORT(item=colour)").unwrap();
    let a = match &p.commands[0] { Command::Sort(a) => a, _ => panic!() };
    assert_eq!(sort_config(a), Err(ConfigError::UnknownSortField));
    let p = parse_script("SORT(item=price, dir=up)").unwrap();
    let a = match &p.commands[0] { Command::Sort(a) => a, _ => panic!() };
    assert_eq!(sort_config(a), Err(ConfigError::InvalidDirection));
    let p = parse_script("SORT(item=price, limit=AAA)").unwrap();
    let a = match &p.commands[0] { Command::Sort(a) => a, _ => panic!() };
    assert_eq!(sort_config(a), Err(ConfigError::WrongValue));
}

#[test]
fn sort_configuration_field_mode() {
    let p = parse_script("SORT(item=price, dir=desc, limit=2)").unwrap();
    let a = match &p.commands[0] { Command::Sort(a) => a, _ => panic!() };
    let c = sort_config(a).unwrap();
    assert_eq!(c.mode, SortMode::Field(SortField::Price));
    assert_eq!(c.dir, Direction::Desc);
    assert_eq!(c.limit, Some(2));
}

#[test]
fn filter_configuration() {
    let p = parse_script("FILTER(conditions=price > 15)").unwrap();
    let a = match &p.commands[0] { Command::Filter(a) => a, _ => panic!() };
    assert_eq!(filter_condition(a), Ok(0));
    let p = parse_script("FILTER(x=1)").unwrap();
    let a = match &p.commands[0] { Command::Filter(a) => a, _ => panic!() };
    assert_eq!(filter_condition(a), Err(ConfigError::MissingCondition));
    assert_eq!(filter_field("market_cap"), Some(FilterField::MarketCap));
    assert_eq!(filter_field("volume"), None);
    assert_eq!(country_flag("XZAG"), 0);
    assert_eq!(country_flag("XLJU"), 1);
}

#[test]
fn plot_rebase_configuration() {
    let p = parse_script("PLOT(rebase=100)").unwrap();
    let a = match &p.commands[0] { Command::Plot(a) => a, _ => panic!() };
    assert_eq!(plot_rebase(a), Ok(Some("100".to_string())));
    let p = parse_script("PLOT(rebase=AAA)").unwrap();
    let a = match &p.commands[0] { Command::Plot(a) => a, _ => panic!() };
    assert_eq!(plot_rebase(a), Err(ConfigError::WrongValue));
}

#[test]
fn window_errors() {
    let today = day("2025-01-01");
    let p = parse_script("PLOT(from=2024-03-01, to=2024-01-01)").unwrap();
    assert_eq!(evaluation_window(&p, day("2015-01-01"), today), Err(ConfigError::ReversedWindow));
    let p = parse_script("PLOT(from=2024-13-01)").unwrap();
    assert_eq!(evaluation_window(&p, day("2015-01-01"), today), Err(ConfigError::InvalidDate));
    let p = parse_script("PLOT(from=AAA)").unwrap();
    assert_eq!(evaluation_window(&p, day("2015-01-01"), today), Err(ConfigError::WrongValue));
    let p = parse_script("PLOT(to=today)").unwrap();
    assert_eq!(evaluation_window(&p, day("2015-01-01"), today), Ok((day("2015-01-01"), today)));
}

#[test]
fn initialization_steps() {
    let p = parse_script("PLOT(items=[stocks, all, KRKG, MA(5), A / B, \"x\"])").unwrap();
    let a = match &p.commands[0] { Command::Plot(a) => a, _ => panic!() };
    let items = items_arg(a).unwrap().unwrap();
    assert_eq!(
        init_steps(items),
        vec![
            InitStep::AllStocks,
            InitStep::AllStocks,
            InitStep::AllIndexes,
            InitStep::Instrument(2),
            InitStep::Function(3),
            InitStep::Expression(4),
        ]
    );
    let p = parse_script("PLOT(items=AAA)").unwrap();
    let a = match &p.commands[0] { Command::Plot(a) => a, _ => panic!() };
    assert!(matches!(items_arg(a), Err(ConfigError::WrongValue)));
}

#[test]
fn pipeline_initializes_once() {
    let mut state = PipelineState::Uninitialized;
    assert!(start_command(&mut state));
    assert!(!start_command(&mut state));
    assert_eq!(state, PipelineState::Running);
}

#[test]
fn chart_plans() {
    let keys = vec!["AAA".to_string(), "MA_5_AAA".to_string(), "RSI_14_AAA".to_string(), "BBB".to_string()];
    let charts = chart_specs("AAA", &keys, false);
    assert_eq!(charts.len(), 3);
    assert_eq!((charts[0].key, charts[0].chart_type, charts[0].panel_id), (0, ChartType::Price, 0));
    assert_eq!((charts[1].key, charts[1].chart_type, charts[1].panel_id), (1, ChartType::Indicator, 0));
    assert_eq!((charts[2].key, charts[2].chart_type, charts[2].panel_id), (2, ChartType::Indicator, 1));
    let rebased = chart_specs("AAA", &keys, true);
    assert!(rebased.iter().all(|c| c.chart_type == ChartType::Rebase));
    assert!(wants_volume("KRKG", false));
    assert!(!wants_volume("KRKG", true));
    assert!(!wants_volume("SBITOP", false));
}

#[test]
fn end_to_end_plan() {
    let p = parse_script("PLOT(items=[AAA], from=2024-01-01, to=2024-03-01) & SORT(item=MA(5), dir=desc)").unwrap();
    assert_eq!(output_needs(&p), (true, false));
    let window = evaluation_window(&p, day("2015-01-01"), day("2025-06-01")).unwrap();
    assert_eq!(window, (day("2024-01-01"), day("2024-03-01")));
    let plot = match &p.commands[0] { Command::Plot(a) => a, _ => panic!() };
    let steps = init_steps(items_arg(plot).unwrap().unwrap());
    assert_eq!(steps, vec![InitStep::Instrument(0)]);
    let mut items = TrackedItems::new();
    items.track("AAA", ItemType::Stock);
    let sort = match &p.commands[1] { Command::Sort(a) => a, _ => panic!() };
    let config = sort_config(sort).unwrap();
    assert_eq!(config.mode, SortMode::Function(0));
    assert_eq!(config.dir, Direction::Desc);
    let call = match &sort[0].value { Value::FunctionCall(c) => c, _ => panic!() };
    let targets = function_targets(&call.args, &items);
    assert_eq!(targets, vec!["AAA".to_string()]);
    let key = create_function_id(&call.name, &call.args, &targets[0]);
    assert_eq!(key, "MA_5_AAA");
    assert_eq!(call_id(call) + "AAA", key);
    let mut cache: SeriesCache<u8> = SeriesCache::new();
    assert!(cache.insert("AAA", 0));
    assert!(cache.insert(&key, 1));
    assert!(!cache.insert(&key, 2));
    let order = sort_order(&vec![SortKey::Number(1)], config.dir);
    items.reorder(&order);
    assert_eq!(items.len(), 1);
    let charts = chart_specs("AAA", &cache.keys(), false);
    assert_eq!(charts.len(), 2);
    assert_eq!((charts[0].chart_type, charts[0].panel_id), (ChartType::Price, 0));
    assert_eq!((charts[1].chart_type, charts[1].panel_id), (ChartType::Indicator, 0));
}

#[test]
fn universes() {
    let stocks = all_stocks_symbols();
    assert_eq!(stocks.len(), 44);
    assert_eq!(stocks[0], "CICG");
    assert_eq!(stocks[43], "ZB");
    let indexes = all_indexes_symbols();
    assert_eq!(indexes, vec!["SBITOP", "SBITR", "ADRPR", "C10TR", "CBX", "CBX10", "CBXPR", "CBXTR"]);
}

#[test]
fn numbers_render_as_values() {
    assert_eq!(canonical_number_text("5.0"), "5");
    assert_eq!(canonical_number_text("007.250"), "7.25");
    assert_eq!(canonical_number_text("-0.0"), "-0");
    assert_eq!(canonical_number_text("0"), "0");
    assert_eq!(canonical_number_text("14"), "14");
    let args = vec![FunctionArg::Number("5.0".to_string())];
    assert_eq!(create_function_id("MA", &args, "X"), "MA_5_X");
}

#[test]
fn field_sources() {
    assert_eq!(sort_source(SortField::MarketCap, ItemType::Stock), FieldSource::QuantityTimesPrice);
    assert_eq!(sort_source(SortField::MarketCap, ItemType::Index), FieldSource::IndexLevel);
    assert_eq!(sort_source(SortField::Country, ItemType::Index), FieldSource::IsinInitial);
    assert_eq!(sort_source(SortField::Price, ItemType::Derived), FieldSource::Missing);
    assert_eq!(filter_source(FilterField::MarketCap, ItemType::Index), FieldSource::Zero);
    assert_eq!(filter_source(FilterField::Country, ItemType::Stock), FieldSource::Mic);
}

#[test]
fn empty_inputs() {
    assert!(sort_order(&vec![], Direction::Asc).is_empty());
    assert!(join_dates(&vec![], &vec![1, 2]).is_empty());
    assert!(take_limit(vec![0, 1], Some(5)) == vec![0, 1]);
    let mut items = TrackedItems::new();
    items.retain_flags(&vec![]);
    assert_eq!(items.len(), 0);
}
