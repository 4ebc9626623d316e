use tickflow::frame::{factors_to_dataframe, kline_to_dataframe, klines_batch_to_dataframes, Cells, Frame};
use tickflow::kline::{ExfactorsData, KlineData};
use tickflow::quote::{Quote, QuoteExt, QuoteExtension, SessionStatus};
use tickflow::quote_frame::quotes_to_dataframe;
use tickflow::symbol::Region;

fn bits(v: &[f64]) -> Vec<u64> {
    v.iter().map(|x| x.to_bits()).collect()
}

fn text_col(df: &Frame, name: &str) -> Vec<Option<String>> {
    match &df.column(name).unwrap().cells {
        Cells::Text(v) => v.clone(),
        other => panic!("column {name} is not text: {other:?}"),
    }
}

fn float_col(df: &Frame, name: &str) -> Vec<Option<f64>> {
    match &df.column(name).unwrap().cells {
        Cells::Float(v) => v.iter().map(|c| c.map(f64::from_bits)).collect(),
        other => panic!("column {name} is not float: {other:?}"),
    }
}

fn sample() -> KlineData {
    KlineData {
        timestamp: vec![1_700_000_000_000, 1_700_086_400_000],
        open: bits(&[10.0, 10.5]),
        high: bits(&[10.2, 10.8]),
        low: bits(&[9.9, 10.4]),
        close: bits(&[10.1, 10.7]),
        volume: vec![1000, 1500],
        amount: bits(&[10_100.0, 16_050.0]),
        open_interest: Some(bits(&[100.0, 110.0])),
        prev_close: None,
        settlement_price: None,
    }
}

#[test]
fn cn_symbol_produces_shanghai_trade_date() {
    let data = sample();
    let df = kline_to_dataframe(&data, Some("600000.SH"), None).unwrap();
    assert_eq!(df.height(), 2);
    assert_eq!(df.width(), 11);

    let date_col = text_col(&df, "trade_date");
    // 1700000000000 ms == 2023-11-14 22:13:20 UTC == 2023-11-15 06:13:20 Asia/Shanghai
    assert_eq!(date_col[0].as_deref().unwrap(), "2023-11-15");

    let time_col = text_col(&df, "trade_time");
    assert_eq!(time_col[0].as_deref().unwrap(), "2023-11-15 06:13:20");
}

#[test]
fn unknown_symbol_yields_null_trade_date() {
    let data = sample();
    let df = kline_to_dataframe(&data, Some("UNKNOWN.X"), None).unwrap();
    let date_col = text_col(&df, "trade_date");
    assert_eq!(date_col[0], None);
}

#[test]
fn empty_data_still_produces_valid_frame() {
    let mut data = sample();
    data.timestamp.clear();
    data.open.clear();
    data.high.clear();
    data.low.clear();
    data.close.clear();
    data.volume.clear();
    data.amount.clear();
    data.open_interest = None;

    let df = kline_to_dataframe(&data, Some("600000.SH"), None).unwrap();
    assert_eq!(df.height(), 0);
    // 11 base columns; open_interest is None and skipped, so no extra column.
    assert_eq!(df.width(), 11);
}

#[test]
fn batch_conversion_keys_by_symbol() {
    let data = sample();
    let map = vec![
        ("600000.SH".to_string(), data.clone()),
        ("000001.SZ".to_string(), data),
    ];
    let names = vec![
        ("600000.SH".to_string(), "浦发银行".to_string()),
        ("000001.SZ".to_string(), "平安银行".to_string()),
    ];

    let out = klines_batch_to_dataframes(&map, &names).unwrap();
    assert_eq!(out.len(), 2);
    assert!(out.iter().any(|(k, _)| k == "600000.SH"));
    assert!(out.iter().any(|(k, _)| k == "000001.SZ"));

    let frame = &out.iter().find(|(k, _)| k == "600000.SH").unwrap().1;
    let name_col = text_col(frame, "name");
    assert_eq!(name_col[0].as_deref().unwrap(), "浦发银行");
}

#[test]
fn batch_conversion_without_names_yields_null() {
    let data = sample();
    let map = vec![("600000.SH".to_string(), data)];
    let names: Vec<(String, String)> = Vec::new();

    let out = klines_batch_to_dataframes(&map, &names).unwrap();
    let frame = &out.iter().find(|(k, _)| k == "600000.SH").unwrap().1;
    let name_col = text_col(frame, "name");
    assert_eq!(name_col[0], None);
}

#[test]
fn factors_dataframe_is_long_format() {
    let map = vec![(
        "600519.SH".to_string(),
        vec![
            ExfactorsData { timestamp: 1_700_000_000_000, ex_factor: 1.05f64.to_bits() },
            ExfactorsData { timestamp: 1_700_086_400_000, ex_factor: 1.02f64.to_bits() },
        ],
    )];

    let df = factors_to_dataframe(&map).unwrap();
    assert_eq!(df.height(), 2);
    assert_eq!(df.width(), 4);

    let symbols = text_col(&df, "symbol");
    assert_eq!(symbols[0].as_deref().unwrap(), "600519.SH");
    assert_eq!(symbols[1].as_deref().unwrap(), "600519.SH");

    let dates = text_col(&df, "trade_date");
    assert_eq!(dates[0].as_deref().unwrap(), "2023-11-15");
}

fn cn_quote() -> Quote {
    Quote {
        symbol: "600000.SH".to_string(),
        last_price: 10.5f64.to_bits(),
        open: 10.0f64.to_bits(),
        high: 10.7f64.to_bits(),
        low: 9.9f64.to_bits(),
        prev_close: 10.0f64.to_bits(),
        volume: 1_000,
        amount: 10_500.0f64.to_bits(),
        // 2023-11-15 06:13:20 Asia/Shanghai = 2023-11-14 22:13:20 UTC
        timestamp: 1_700_000_000_000,
        ext: Some(QuoteExtension::Cn(QuoteExt {
            amplitude: Some(0.08f64.to_bits()),
            change_amount: Some(0.5f64.to_bits()),
            change_pct: Some(0.05f64.to_bits()),
            name: Some("浦发银行".to_string()),
            turnover_rate: Some(0.012f64.to_bits()),
        })),
        region: Region::Cn,
        session: Some(SessionStatus::Regular),
    }
}

fn us_quote() -> Quote {
    Quote {
        symbol: "AAPL.US".to_string(),
        last_price: 190.0f64.to_bits(),
        open: 188.0f64.to_bits(),
        high: 191.0f64.to_bits(),
        low: 187.5f64.to_bits(),
        prev_close: 187.0f64.to_bits(),
        volume: 50_000,
        amount: 9_500_000.0f64.to_bits(),
        // 2023-11-14 22:13:20 UTC = 2023-11-14 17:13:20 America/New_York
        timestamp: 1_700_000_000_000,
        ext: Some(QuoteExtension::Us(QuoteExt {
            amplitude: Some(0.018f64.to_bits()),
            change_amount: Some(3.0f64.to_bits()),
            change_pct: Some(0.016f64.to_bits()),
            name: Some("Apple Inc.".to_string()),
            turnover_rate: None,
        })),
        region: Region::Us,
        session: Some(SessionStatus::PreMarket),
    }
}

#[test]
fn quote_to_dataframe_basic() {
    let map = vec![("AAPL.US".to_string(), us_quote()), ("600000.SH".to_string(), cn_quote())];

    let df = quotes_to_dataframe(&map).unwrap();

    // 18 columns: 12 base + session + 5 ext.*
    assert_eq!(df.width(), 18);
    assert_eq!(df.height(), 2);

    // Sort order: "600000.SH" < "AAPL.US" — rows emitted in symbol order.
    let symbol_col = text_col(&df, "symbol");
    assert_eq!(symbol_col, vec![Some("600000.SH".to_string()), Some("AAPL.US".to_string())]);

    // CN row: Shanghai tz.
    let dates = text_col(&df, "trade_date");
    let times = text_col(&df, "trade_time");
    assert_eq!(dates[0].as_deref().unwrap(), "2023-11-15");
    assert_eq!(times[0].as_deref().unwrap(), "2023-11-15 06:13:20");

    // US row: New_York tz — same UTC instant falls on 2023-11-14 there.
    assert_eq!(dates[1].as_deref().unwrap(), "2023-11-14");
    assert_eq!(times[1].as_deref().unwrap(), "2023-11-14 17:13:20");

    // ext.* columns populated for both rows.
    let amplitudes = float_col(&df, "ext.amplitude");
    assert_eq!(amplitudes[0], Some(0.08));
    assert_eq!(amplitudes[1], Some(0.018));

    let names = text_col(&df, "ext.name");
    assert_eq!(names[0].as_deref().unwrap(), "浦发银行");
    assert_eq!(names[1].as_deref().unwrap(), "Apple Inc.");

    // turnover_rate: Some for CN, None for US.
    let turnover = float_col(&df, "ext.turnover_rate");
    assert_eq!(turnover[0], Some(0.012));
    assert_eq!(turnover[1], None);
}

#[test]
fn quote_to_dataframe_no_ext() {
    let mut q = cn_quote();
    q.ext = None;
    let map = vec![("600000.SH".to_string(), q)];

    let df = quotes_to_dataframe(&map).unwrap();
    assert_eq!(df.height(), 1);

    for col in ["ext.amplitude", "ext.change_amount", "ext.change_pct", "ext.name", "ext.turnover_rate"] {
        if col == "ext.name" {
            // Column is string-typed; check via a parallel probe below.
            continue;
        }
        let values = float_col(&df, col);
        assert_eq!(values, vec![None], "{col} should be null");
    }

    // ext.name column is string-typed and should be null too.
    let names = text_col(&df, "ext.name");
    assert_eq!(names, vec![None]);
}

#[test]
fn quote_to_dataframe_empty() {
    let map: Vec<(String, Quote)> = Vec::new();
    let df = quotes_to_dataframe(&map).unwrap();

    assert_eq!(df.height(), 0);
    assert_eq!(df.width(), 18);

    // Downstream `.column("symbol")` must not panic on an empty frame.
    let symbol_col = df.column("symbol").unwrap();
    assert_eq!(symbol_col.len(), 0);
}

#[test]
fn quote_to_dataframe_session_serialized() {
    let mut q = cn_quote();
    q.session = Some(SessionStatus::PreMarket);
    let map = vec![("600000.SH".to_string(), q)];

    let df = quotes_to_dataframe(&map).unwrap();
    let sessions = text_col(&df, "session");
    assert_eq!(sessions, vec![Some("pre_market".to_string())]);

    // Also verify `regular` for the default cn_quote fixture.
    let map2 = vec![("600000.SH".to_string(), cn_quote())];
    let df2 = quotes_to_dataframe(&map2).unwrap();
    let sessions2 = text_col(&df2, "session");
    assert_eq!(sessions2, vec![Some("regular".to_string())]);
}
