use tickflow::adjust::AdjustType;
use tickflow::batch::{chunk_strings, csv_chunks, merge_maps};
use tickflow::cache::{named_entries, NameStore};
use tickflow::config::{derive_ws_url, ApiUrl, Config, TickFlowBuilder, Timeout, DEFAULT_BASE_URL, FREE_BASE_URL};
use tickflow::error::{ConfigError, Error};
use tickflow::exchange::exchange_instruments_path;
use tickflow::financial::{statement_queries, Statement, StatementParams};
use tickflow::frame::{Cells, Frame, FrameColumn};
use tickflow::http::{api_key_check, check_status, parse_failure, request_url};
use tickflow::instrument::{first_instrument, InstrumentType};
use tickflow::kline::{broadcast_to, format_trade_columns, KlineData, KlinesParams, KlinesResponse};
use tickflow::kline_request::{batch_params, checked_klines};
use tickflow::order::key_order;
use tickflow::period::Period;
use tickflow::quote::{Quote, QuoteParams, SessionStatus};
use tickflow::quote_request::{quote_request, quotes_by_symbol, Method, QueryMode, QuoteRequest, QuotesQuery};
use tickflow::records::{json_column, records_to_dataframe, JsonValue};
use tickflow::symbol::{region_for_symbol, tz_for_region, Region, Symbol, TimeZone};
use tickflow::universe::universe_path;
use tickflow::BATCH_CHUNK_SIZE;

fn strings(v: &[&str]) -> Vec<String> {
    v.iter().map(|s| s.to_string()).collect()
}

fn text_col(df: &Frame, name: &str) -> Vec<Option<String>> {
    match &df.column(name).unwrap().cells {
        Cells::Text(v) => v.clone(),
        other => panic!("column {name} is not text: {other:?}"),
    }
}

fn quote(symbol: &str, price: f64) -> Quote {
    Quote {
        symbol: symbol.to_string(),
        last_price: price.to_bits(),
        open: price.to_bits(),
        high: price.to_bits(),
        low: price.to_bits(),
        prev_close: price.to_bits(),
        volume: 1,
        amount: price.to_bits(),
        timestamp: 1_700_000_000_000,
        ext: None,
        region: Region::Cn,
        session: None,
    }
}

#[test]
fn symbol_accepts_suffixed_codes() {
    let s = Symbol::new("600000.SH").unwrap();
    assert_eq!(s.as_str(), "600000.SH");
    assert_eq!(s.region(), Some(Region::Cn));
    assert_eq!(s.tz(), Some(TimeZone::AsiaShanghai));
    assert_eq!(String::from(&s), "600000.SH");
    assert_eq!(s.into_string(), "600000.SH");
}

#[test]
fn symbol_rejects_empty_text() {
    match Symbol::new("") {
        Err(Error::Config(c)) => assert_eq!(c.message, "symbol cannot be empty"),
        other => panic!("unexpected: {other:?}"),
    }
}

#[test]
fn symbol_rejects_missing_suffix() {
    match Symbol::new("AAPL") {
        Err(Error::Config(c)) => assert_eq!(c.message, "symbol missing region suffix: \"AAPL\""),
        other => panic!("unexpected: {other:?}"),
    }
}

#[test]
fn symbol_with_unknown_suffix_has_no_region() {
    let s = Symbol::new("UNKNOWN.X").unwrap();
    assert_eq!(s.region(), None);
    assert_eq!(s.tz(), None);
}

#[test]
fn region_for_symbol_reads_last_suffix() {
    assert_eq!(region_for_symbol("600000.SH"), Some(Region::Cn));
    assert_eq!(region_for_symbol("000001.SZ"), Some(Region::Cn));
    assert_eq!(region_for_symbol("830799.BJ"), Some(Region::Cn));
    assert_eq!(region_for_symbol("AAPL.US"), Some(Region::Us));
    assert_eq!(region_for_symbol("00700.HK"), Some(Region::Hk));
    assert_eq!(region_for_symbol("BRK.B.US"), Some(Region::Us));
    assert_eq!(region_for_symbol("US"), Some(Region::Us));
    assert_eq!(region_for_symbol("600000.sh"), None);
    assert_eq!(region_for_symbol("600000."), None);
}

#[test]
fn region_codes_round_trip() {
    for r in [Region::Cn, Region::Hk, Region::Us] {
        assert_eq!(Region::parse(r.as_str()), Some(r));
    }
    assert_eq!(Region::parse("cn"), None);
    let code: &'static str = Region::Hk.into();
    assert_eq!(code, "HK");
    assert_eq!(tz_for_region(Region::Us), Some(TimeZone::AmericaNewYork));
    assert_eq!(Region::Hk.tz().unwrap().name(), "Asia/Hong_Kong");
}

#[test]
fn period_codes_round_trip() {
    let all = [
        Period::M1,
        Period::M5,
        Period::M10,
        Period::M15,
        Period::M30,
        Period::M60,
        Period::D1,
        Period::W1,
        Period::Mo1,
        Period::Q1,
        Period::Y1,
    ];
    for p in all {
        assert_eq!(Period::parse(p.as_str()), Some(p));
    }
    assert_eq!(Period::Y1.as_str(), "1Y");
    assert_eq!(Period::parse("1Y"), Some(Period::Y1));
    assert_eq!(Period::parse("1y"), None);
    assert_eq!(Period::parse("2d"), None);
    let code: &'static str = Period::Mo1.into();
    assert_eq!(code, "1M");
}

#[test]
fn session_codes_round_trip() {
    let all = [
        SessionStatus::PreMarket,
        SessionStatus::Regular,
        SessionStatus::AfterHours,
        SessionStatus::Closed,
        SessionStatus::Halted,
        SessionStatus::LunchBreak,
    ];
    for s in all {
        assert_eq!(SessionStatus::parse(s.as_str()), Some(s));
    }
    assert_eq!(SessionStatus::LunchBreak.as_str(), "lunch_break");
    assert_eq!(SessionStatus::parse("open"), None);
}

#[test]
fn adjust_and_instrument_codes() {
    assert_eq!(AdjustType::default(), AdjustType::Forward);
    assert_eq!(AdjustType::Forward.as_str(), "forward");
    assert_eq!(AdjustType::BackwardAdditive.as_str(), "backward_additive");
    assert_eq!(AdjustType::Unadjusted.as_str(), "none");
    assert_eq!(InstrumentType::Etf.as_str(), "etf");
    assert_eq!(InstrumentType::Options.as_str(), "options");
}

#[test]
fn statement_endpoints() {
    assert_eq!(Statement::Income.endpoint(), "/v1/financials/income");
    assert_eq!(Statement::BalanceSheet.endpoint(), "/v1/financials/balance-sheet");
    assert_eq!(Statement::CashFlow.endpoint(), "/v1/financials/cash-flow");
    assert_eq!(Statement::Metrics.endpoint(), "/v1/financials/metrics");
    assert_eq!(Statement::Shares.endpoint(), "/v1/financials/shares");
}

#[test]
fn error_texts_carry_their_kind() {
    let e = Error::Config(ConfigError::new("bad url"));
    assert_eq!(e.to_string(), "config error: config error: bad url");
    assert_eq!(ConfigError::new("x").to_string(), "config error: x");
    assert_eq!(Error::Network("reset".to_string()).to_string(), "network error reset");
    assert_eq!(Error::Api("status: 500".to_string()).to_string(), "API error status: 500");
    assert_eq!(Error::Parse("eof".to_string()).to_string(), "parse error: eof");
    assert_eq!(Error::DataFrame("dup".to_string()).to_string(), "dataframe error: dup");
}

#[test]
fn chunks_of_five_hundred() {
    let items: Vec<String> = (0..1001).map(|i| format!("S{i}")).collect();
    let chunks = chunk_strings(&items, BATCH_CHUNK_SIZE);
    assert_eq!(chunks.len(), 3);
    assert_eq!(chunks[0].len(), 500);
    assert_eq!(chunks[1].len(), 500);
    assert_eq!(chunks[2], vec!["S1000".to_string()]);
    assert_eq!(chunks.concat(), items);

    let csv = csv_chunks(&strings(&["A", "B", "C"]), 2);
    assert_eq!(csv, vec!["A,B".to_string(), "C".to_string()]);
    assert!(csv_chunks(&[], 500).is_empty());
}

#[test]
fn merge_keeps_the_last_value_of_a_key() {
    let merged = merge_maps(vec![
        vec![("A".to_string(), 1), ("B".to_string(), 2)],
        vec![("B".to_string(), 3), ("C".to_string(), 4)],
    ]);
    let mut got = merged.clone();
    got.sort();
    assert_eq!(got, vec![("A".to_string(), 1), ("B".to_string(), 3), ("C".to_string(), 4)]);
    assert!(merge_maps::<u8>(Vec::new()).is_empty());
}

#[test]
fn name_store_lookups() {
    let mut store = NameStore::new();
    let syms = strings(&["600000.SH", "000001.SZ", "600000.SH"]);
    assert_eq!(store.missing(&syms), syms);
    store.insert("600000.SH".to_string(), "Old".to_string());
    store.extend(vec![("600000.SH".to_string(), "浦发银行".to_string())]);
    assert_eq!(store.get(&"600000.SH".to_string()), Some("浦发银行"));
    assert!(!store.contains(&"000001.SZ".to_string()));
    assert_eq!(store.missing(&syms), strings(&["000001.SZ"]));
    assert_eq!(
        store.resolve_cached(&syms),
        vec![
            ("600000.SH".to_string(), "浦发银行".to_string()),
            ("600000.SH".to_string(), "浦发银行".to_string()),
        ]
    );
}

#[test]
fn repeated_lookup_fetches_nothing() {
    let mut store = NameStore::new();
    let syms = strings(&["A.SH", "B.SZ"]);
    let missing = store.missing(&syms);
    let fetched: Vec<(String, Option<String>)> =
        missing.iter().map(|s| (s.clone(), Some(format!("name of {s}")))).collect();
    store.record_lookup(&missing, named_entries(&fetched));
    assert!(store.missing(&syms).is_empty());
}

#[test]
fn symbols_without_a_name_are_not_fetched_again() {
    let mut store = NameStore::new();
    let syms = strings(&["A.SH", "NONAME.SZ"]);
    let missing = store.missing(&syms);
    assert_eq!(missing, syms);
    store.record_lookup(&missing, vec![("A.SH".to_string(), "Alpha".to_string())]);
    assert!(store.missing(&syms).is_empty());
    assert!(store.contains(&"NONAME.SZ".to_string()));
    assert_eq!(store.get(&"NONAME.SZ".to_string()), None);
    assert_eq!(store.resolve_cached(&syms), vec![("A.SH".to_string(), "Alpha".to_string())]);
}

#[test]
fn instruments_without_name_are_dropped() {
    let entries = vec![
        ("A.SH".to_string(), Some("Alpha".to_string())),
        ("B.SH".to_string(), None),
    ];
    assert_eq!(named_entries(&entries), vec![("A.SH".to_string(), "Alpha".to_string())]);
}

#[test]
fn statement_queries_chunk_and_copy_filters() {
    let syms = strings(&["A.SH", "B.SZ"]);
    let p = StatementParams::new().start_date("2023-01-01").latest(true);
    let qs = statement_queries(&syms, &Some(p));
    assert_eq!(qs.len(), 1);
    assert_eq!(qs[0].symbols, "A.SH,B.SZ");
    assert_eq!(qs[0].start_date.as_deref(), Some("2023-01-01"));
    assert_eq!(qs[0].end_date, None);
    assert_eq!(qs[0].latest, Some(true));
    let none = statement_queries(&syms, &None);
    assert_eq!(none[0].latest, None);
    assert!(statement_queries(&[], &None).is_empty());
}

#[test]
fn json_columns_take_the_type_of_the_first_value() {
    let num = |x: f64, t: &str| JsonValue::Number { as_f64: x.to_bits(), text: t.to_string() };
    let c = json_column("eps", &[JsonValue::Null, num(1.5, "1.5"), JsonValue::Bool(true)]);
    match c.cells {
        Cells::Float(v) => assert_eq!(v, vec![None, Some(1.5f64.to_bits()), None]),
        other => panic!("unexpected {other:?}"),
    }
    let s = json_column("d", &[JsonValue::Str { value: "x".to_string(), text: "\"x\"".to_string() }, num(2.0, "2.0")]);
    match s.cells {
        Cells::Text(v) => assert_eq!(v, vec![Some("x".to_string()), None]),
        other => panic!("unexpected {other:?}"),
    }
    let b = json_column("f", &[JsonValue::Bool(false)]);
    match b.cells {
        Cells::Flag(v) => assert_eq!(v, vec![Some(false)]),
        other => panic!("unexpected {other:?}"),
    }
    let n = json_column("n", &[JsonValue::Nested { text: "[1,2]".to_string() }, JsonValue::Null]);
    match n.cells {
        Cells::Text(v) => assert_eq!(v, vec![Some("[1,2]".to_string()), None]),
        other => panic!("unexpected {other:?}"),
    }
    let all_null = json_column("z", &[JsonValue::Null]);
    match all_null.cells {
        Cells::Text(v) => assert_eq!(v, vec![None]),
        other => panic!("unexpected {other:?}"),
    }
}

#[test]
fn records_table_is_long_and_row_aligned() {
    let rec = |fields: Vec<(&str, JsonValue)>| -> Vec<(String, JsonValue)> {
        fields.into_iter().map(|(k, v)| (k.to_string(), v)).collect()
    };
    let num = |x: f64| JsonValue::Number { as_f64: x.to_bits(), text: format!("{x}") };
    let map = vec![
        ("B.SZ".to_string(), vec![rec(vec![("revenue", num(2.0))])]),
        (
            "A.SH".to_string(),
            vec![rec(vec![("revenue", num(1.0))]), rec(vec![("revenue", num(3.0)), ("eps", num(0.5))])],
        ),
    ];
    let df = records_to_dataframe(&map).unwrap();
    assert_eq!(df.height(), 3);
    assert_eq!(df.width(), 3);
    assert_eq!(
        text_col(&df, "symbol"),
        vec![Some("A.SH".to_string()), Some("A.SH".to_string()), Some("B.SZ".to_string())]
    );
    match &df.column("eps").unwrap().cells {
        Cells::Float(v) => assert_eq!(v, &vec![None, Some(0.5f64.to_bits()), None]),
        other => panic!("unexpected {other:?}"),
    }
    let names: Vec<String> = df.columns().iter().map(|c| c.name.clone()).collect();
    assert_eq!(names, strings(&["symbol", "revenue", "eps"]));
}

#[test]
fn records_with_a_symbol_field_are_refused() {
    let map = vec![(
        "A.SH".to_string(),
        vec![vec![("symbol".to_string(), JsonValue::Str { value: "A".to_string(), text: "\"A\"".to_string() })]],
    )];
    assert!(matches!(records_to_dataframe(&map), Err(Error::DataFrame(_))));
    let empty: Vec<(String, Vec<Vec<(String, JsonValue)>>)> = Vec::new();
    let df = records_to_dataframe(&empty).unwrap();
    assert_eq!(df.width(), 1);
    assert_eq!(df.height(), 0);
}

#[test]
fn frame_refuses_ragged_or_duplicate_columns() {
    let col = |n: &str, v: Vec<Option<i64>>| FrameColumn { name: n.to_string(), cells: Cells::Int(v) };
    assert!(Frame::new(vec![col("a", vec![Some(1)]), col("b", vec![])]).is_err());
    assert!(Frame::new(vec![col("a", vec![Some(1)]), col("a", vec![None])]).is_err());
    let f = Frame::new(vec![col("a", vec![Some(1)]), col("b", vec![None])]).unwrap();
    assert_eq!((f.height(), f.width()), (1, 2));
    assert!(f.column("c").is_none());
}

#[test]
fn key_order_sorts_by_code_point() {
    let entries = vec![("b".to_string(), 0), ("B".to_string(), 1), ("a".to_string(), 2), ("ab".to_string(), 3)];
    assert_eq!(key_order(&entries), vec![1, 2, 3, 0]);
}

#[test]
fn default_config_points_at_the_public_api() {
    let c = Config::new();
    assert_eq!(c.api_key, None);
    assert_eq!(c.base_url.as_str(), "https://api.tickflow.org/");
    assert_eq!(c.ws_url.as_str(), "wss://api.tickflow.org/");
    assert_eq!(c.ws_url.scheme(), "wss");
    assert_eq!(c.timeout, Timeout { secs: 30, subsec_nanos: 0 });
    assert_eq!(c.max_retries, 3);
    assert_eq!(DEFAULT_BASE_URL, "https://api.tickflow.org");
    let d = Config::default();
    assert_eq!(d.base_url.as_str(), c.base_url.as_str());
}

#[test]
fn environment_values_override_the_config() {
    let c = Config::new().with_env(Some("k".to_string()), Some("http://localhost:8080".to_string()));
    assert_eq!(c.api_key.as_deref(), Some("k"));
    assert_eq!(c.base_url.as_str(), "http://localhost:8080/");
    assert_eq!(c.ws_url.as_str(), "ws://localhost:8080/");
    let kept = Config::new().with_env(None, Some("not a url".to_string()));
    assert_eq!(kept.base_url.as_str(), "https://api.tickflow.org/");
    assert_eq!(kept.api_key, None);
}

#[test]
fn ws_url_keeps_other_schemes() {
    let u = ApiUrl::parse("ftp://example.com/x").unwrap();
    assert_eq!(derive_ws_url(&u).as_str(), "ftp://example.com/x");
    assert!(ApiUrl::parse("::").is_none());
}

#[test]
fn builder_sets_key_url_and_free_tier() {
    let b = TickFlowBuilder::from_config(Config::new())
        .api_key("secret")
        .base_url("https://example.com/api/")
        .timeout(Timeout::from_secs(5));
    let c = b.config();
    assert_eq!(c.api_key.as_deref(), Some("secret"));
    assert_eq!(c.base_url.as_str(), "https://example.com/api/");
    assert_eq!(c.ws_url.as_str(), "wss://example.com/api/");
    assert_eq!(c.timeout, Timeout { secs: 5, subsec_nanos: 0 });

    let unchanged = b.base_url("not a url");
    assert_eq!(unchanged.config().base_url.as_str(), "https://example.com/api/");

    let free = unchanged.free_tier().into_config();
    assert_eq!(free.api_key, None);
    assert_eq!(free.base_url.as_str(), "https://free-api.tickflow.org/");
    assert_eq!(free.ws_url.as_str(), "wss://free-api.tickflow.org/");
    assert_eq!(free.timeout, Timeout::from_secs(30));
    assert_eq!(FREE_BASE_URL, "https://free-api.tickflow.org");
}

#[test]
fn request_urls_join_paths() {
    let base = ApiUrl::parse("https://api.tickflow.org").unwrap();
    assert_eq!(request_url(&base, "/v1/quotes").unwrap(), "https://api.tickflow.org/v1/quotes");
    let nested = ApiUrl::parse("https://example.com/api/").unwrap();
    assert_eq!(request_url(&nested, "v1/klines").unwrap(), "https://example.com/api/v1/klines");
    assert!(matches!(request_url(&base, "http://[::1"), Err(Error::Config(_))));
}

#[test]
fn api_keys_must_fit_in_a_header() {
    assert!(api_key_check(&None).is_ok());
    assert!(api_key_check(&Some("abc-123\tx".to_string())).is_ok());
    assert!(api_key_check(&Some("ключ".to_string())).is_ok());
    match api_key_check(&Some("bad\nkey".to_string())) {
        Err(Error::Config(c)) => assert_eq!(c.message, "failed to parse header value"),
        other => panic!("unexpected {other:?}"),
    }
}

#[test]
fn status_and_parse_failures() {
    assert_eq!(check_status(200, "200 OK", "{}".to_string()).unwrap(), "{}");
    assert_eq!(check_status(299, "299 <unknown status code>", "b".to_string()).unwrap(), "b");
    match check_status(404, "404 Not Found", "nope".to_string()) {
        Err(Error::Api(m)) => assert_eq!(m, "status: 404 Not Found nope"),
        other => panic!("unexpected {other:?}"),
    }
    assert!(check_status(199, "199", String::new()).is_err());
    match parse_failure("expected value", "oops") {
        Error::Parse(m) => assert_eq!(m, "expected value; body=oops"),
        other => panic!("unexpected {other:?}"),
    }
}

#[test]
fn endpoint_paths() {
    assert_eq!(universe_path("CN_Equity_A"), "/v1/universes/CN_Equity_A");
    assert_eq!(exchange_instruments_path("SH"), "/v1/exchanges/SH/instruments");
}

#[test]
fn single_instrument_is_the_first_record() {
    assert_eq!(first_instrument(vec![7, 8]).unwrap(), 7);
    match first_instrument::<u8>(Vec::new()) {
        Err(Error::Parse(m)) => assert_eq!(m, "instruments response contained no data for the requested symbol"),
        other => panic!("unexpected {other:?}"),
    }
}

#[test]
fn single_quote_query_gets_its_first_item() {
    let q = QuotesQuery::symbol("600000.SH");
    let reqs = q.requests();
    assert_eq!(reqs.len(), 1);
    match &reqs[0] {
        QuoteRequest::Get(c) => {
            assert_eq!(c.symbols.as_deref(), Some("600000.SH"));
            assert_eq!(c.universes, None);
        },
        other => panic!("unexpected {other:?}"),
    }
    let u = QuotesQuery::universe("CN_Equity_A").as_dataframe();
    assert!(u.as_dataframe);
    match &u.requests()[0] {
        QuoteRequest::Get(c) => assert_eq!(c.universes.as_deref(), Some("CN_Equity_A")),
        other => panic!("unexpected {other:?}"),
    }
}

#[test]
fn batch_quote_query_posts_chunks() {
    let items: Vec<String> = (0..501).map(|i| format!("{i:06}.SH")).collect();
    let q = QuotesQuery::batch_symbols(items.clone());
    let reqs = q.requests();
    assert_eq!(reqs.len(), 2);
    let mut carried: Vec<String> = Vec::new();
    for r in &reqs {
        match r {
            QuoteRequest::Post(QuoteParams { symbols: Some(v), universes: None }) => carried.extend(v.clone()),
            other => panic!("unexpected {other:?}"),
        }
    }
    assert_eq!(carried, items);
    assert!(QuotesQuery::batch_universes(Vec::new()).requests().is_empty());
    match quote_request(Method::Post, &strings(&["U1"]), true) {
        QuoteRequest::Post(p) => {
            assert_eq!(p.symbols, None);
            assert_eq!(p.universes, Some(strings(&["U1"])));
        },
        other => panic!("unexpected {other:?}"),
    }
    match quote_request(Method::Get, &strings(&["A", "B"]), false) {
        QuoteRequest::Get(c) => assert_eq!(c.symbols.as_deref(), Some("A,B")),
        other => panic!("unexpected {other:?}"),
    }
    let empty = tickflow::quote_request::quote_requests(Method::Get, &QueryMode::Symbols(Vec::new()));
    assert!(empty.is_empty());
}

#[test]
fn quotes_are_keyed_by_symbol_later_wins() {
    let keyed = quotes_by_symbol(&vec![quote("A.SH", 1.0), quote("B.SZ", 2.0), quote("A.SH", 3.0)]);
    assert_eq!(keyed.len(), 2);
    let a = keyed.iter().find(|(k, _)| k == "A.SH").unwrap();
    assert_eq!(f64::from_bits(a.1.last_price), 3.0);
    assert!(keyed.iter().all(|(k, q)| *k == q.symbol));
}

#[test]
fn kline_params_setters_and_batches() {
    let p = KlinesParams::klines_default()
        .period(Period::W1)
        .count(5)
        .adjust(AdjustType::Backward)
        .start_time(1)
        .end_time(2)
        .as_dataframe();
    assert_eq!(p.period, Some(Period::W1));
    assert_eq!(p.count, Some(5));
    assert_eq!(p.adjust, Some(AdjustType::Backward));
    assert_eq!((p.start_time, p.end_time), (Some(1), Some(2)));
    assert!(p.wants_dataframe());
    assert!(!KlinesParams::intraday_default().wants_dataframe());
    assert_eq!(KlinesParams::intraday_default().count, Some(240));
    assert_eq!(KlinesParams::default().period, None);
    let single = KlinesParams::klines_default().for_symbol("600000.SH");
    assert_eq!(single.symbol.as_deref(), Some("600000.SH"));
    assert_eq!(single.count, Some(100));

    let syms: Vec<String> = (0..1000).map(|i| format!("{i}.SZ")).collect();
    let batches = batch_params(&syms, &p);
    assert_eq!(batches.len(), 2);
    assert_eq!(batches[1].symbols, syms[500..].join(","));
    assert_eq!(batches[0].params.count, Some(5));
    assert!(batch_params(&[], &p).is_empty());
}

#[test]
fn kline_answers_are_checked() {
    let good = KlineData {
        amount: vec![1],
        volume: vec![1],
        timestamp: vec![1],
        open: vec![1],
        high: vec![1],
        low: vec![1],
        close: vec![2.5f64.to_bits()],
        open_interest: None,
        prev_close: None,
        settlement_price: None,
    };
    assert_eq!(good.len(), 1);
    assert!(!good.is_empty());
    assert_eq!(good.last_close().map(f64::from_bits), Some(2.5));
    let mut short_prev = good.clone();
    short_prev.prev_close = Some(vec![]);
    assert_eq!(short_prev.validate(), Err("column length mismatch"));
    let mut with_extras = good.clone();
    with_extras.open_interest = Some(vec![7]);
    assert_eq!(with_extras.validate(), Ok(()));
    let mut bad = good.clone();
    bad.close.clear();
    assert_eq!(bad.validate(), Err("column length mismatch"));
    assert!(checked_klines(KlinesResponse { data: good }).is_ok());
    match checked_klines(KlinesResponse { data: bad }) {
        Err(Error::Parse(m)) => assert_eq!(m, "column length mismatch"),
        other => panic!("unexpected {other:?}"),
    }
}

#[test]
fn trade_columns_follow_the_zone() {
    let (d, t) = format_trade_columns(&[1_700_000_000_000], Some(TimeZone::AmericaNewYork));
    assert_eq!(d, vec![Some("2023-11-14".to_string())]);
    assert_eq!(t, vec![Some("2023-11-14 17:13:20".to_string())]);
    let (d, t) = format_trade_columns(&[1_700_000_000_000], Some(TimeZone::AsiaHongKong));
    assert_eq!(d, vec![Some("2023-11-15".to_string())]);
    assert_eq!(t, vec![Some("2023-11-15 06:13:20".to_string())]);
    let (d, t) = format_trade_columns(&[0, 1], None);
    assert_eq!((d, t), (vec![None, None], vec![None, None]));
    assert_eq!(broadcast_to(Some("x"), 2), vec![Some("x"), Some("x")]);
    assert!(broadcast_to(Some("x"), 0).is_empty());
    assert_eq!(broadcast_to(None, 1), vec![None]);
}

#[test]
fn quote_table_ignores_entry_order() {
    let a = vec![("B.SZ".to_string(), quote("B.SZ", 2.0)), ("A.SH".to_string(), quote("A.SH", 1.0))];
    let b = vec![("A.SH".to_string(), quote("A.SH", 1.0)), ("B.SZ".to_string(), quote("B.SZ", 2.0))];
    let fa = tickflow::quote_frame::quotes_to_dataframe(&a).unwrap();
    let fb = tickflow::quote_frame::quotes_to_dataframe(&b).unwrap();
    assert_eq!(format!("{fa:?}"), format!("{fb:?}"));
    assert_eq!(text_col(&fa, "symbol"), vec![Some("A.SH".to_string()), Some("B.SZ".to_string())]);
}

#[test]
fn records_table_ignores_entry_order() {
    let rec = |v: f64| vec![("x".to_string(), JsonValue::Number { as_f64: v.to_bits(), text: format!("{v}") })];
    let a = vec![("B".to_string(), vec![rec(2.0)]), ("A".to_string(), vec![rec(1.0), rec(3.0)])];
    let b = vec![("A".to_string(), vec![rec(1.0), rec(3.0)]), ("B".to_string(), vec![rec(2.0)])];
    let fa = records_to_dataframe(&a).unwrap();
    let fb = records_to_dataframe(&b).unwrap();
    assert_eq!(format!("{fa:?}"), format!("{fb:?}"));
    assert_eq!(fa.height(), 3);
}

#[test]
fn last_statement_setting_wins() {
    let q = StatementParams::new()
        .start_date("2020-01-01")
        .latest(false)
        .start_date("2021-01-01")
        .latest(true)
        .into_query("A.SH".to_string());
    assert_eq!(q.symbols, "A.SH");
    assert_eq!(q.start_date.as_deref(), Some("2021-01-01"));
    assert_eq!(q.end_date, None);
    assert_eq!(q.latest, Some(true));
    let plain = StatementParams::new().into_query("B.SZ".to_string());
    assert_eq!((plain.start_date, plain.end_date, plain.latest), (None, None, None));
}
