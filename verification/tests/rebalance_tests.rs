use quant_api::calendar::CivilDate;
use quant_api::rebalance::{
    a_share_targets, clearance_symbols, contains_str, empty_rebalance_error, etf_listed_on,
    etf_price_origin, listed_etf_symbols, EtfPriceOrigin, PriceSource,
};

fn date(year: i32, month: u32, day: u32) -> CivilDate {
    CivilDate { year, month, day }
}

fn strings(v: &[&str]) -> Vec<String> {
    v.iter().map(|s| s.to_string()).collect()
}

#[test]
fn etf_price_origin_by_source() {
    assert_eq!(etf_price_origin(PriceSource::EodClose, true), EtfPriceOrigin::PreloadedClose);
    assert_eq!(etf_price_origin(PriceSource::EodClose, false), EtfPriceOrigin::PreloadedClose);
    assert_eq!(etf_price_origin(PriceSource::Intraday, true), EtfPriceOrigin::IntradayQuote);
    assert_eq!(etf_price_origin(PriceSource::Intraday, false), EtfPriceOrigin::LatestClose);
}

#[test]
fn etf_listed_on_prefers_listing_date() {
    let day = date(2026, 9, 21);
    assert!(etf_listed_on(Some(date(2026, 9, 21)), None, day));
    assert!(!etf_listed_on(Some(date(2026, 9, 22)), Some(date(2020, 1, 1)), day));
    assert!(etf_listed_on(None, Some(date(2013, 7, 29)), day));
    assert!(!etf_listed_on(None, Some(date(2027, 1, 1)), day));
    assert!(!etf_listed_on(None, None, day));
}

#[test]
fn listed_etf_symbols_keeps_configured_order() {
    let etfs = strings(&["518880.SH", "513100.SH", "159985.SZ", "511010.SH"]);
    let rows = vec![
        ("511010.SH".to_string(), Some(date(2013, 3, 25)), None),
        ("513100.SH".to_string(), None, Some(date(2013, 5, 15))),
        ("159985.SZ".to_string(), Some(date(2027, 1, 1)), None),
        ("518880.SH".to_string(), Some(date(2013, 7, 29)), None),
    ];
    assert_eq!(
        listed_etf_symbols(&etfs, &rows, date(2026, 9, 21)),
        strings(&["518880.SH", "513100.SH", "511010.SH"])
    );
    assert!(listed_etf_symbols(&etfs, &vec![], date(2026, 9, 21)).is_empty());
}

#[test]
fn a_share_targets_include_everything_while_buying_is_barred() {
    let sel = vec![("600519.SH".to_string(), true), ("000001.SZ".to_string(), false)];
    assert_eq!(a_share_targets(&sel, false), strings(&["600519.SH"]));
    assert_eq!(a_share_targets(&sel, true), strings(&["600519.SH", "000001.SZ"]));
}

#[test]
fn clearance_skips_etfs_and_targets() {
    let held = vec![
        ("600519.SH".to_string(), true),
        ("518880.SH".to_string(), true),
        ("000001.SZ".to_string(), true),
        ("300750.SZ".to_string(), false),
    ];
    let etfs = strings(&["518880.SH"]);
    let targets = strings(&["600519.SH"]);
    assert_eq!(clearance_symbols(&held, &etfs, &targets), strings(&["000001.SZ"]));
    assert!(contains_str(&etfs, "518880.SH"));
    assert!(!contains_str(&etfs, "518880"));
}

#[test]
fn empty_rebalance_is_refused_only_when_nothing_backs_it() {
    assert_eq!(
        empty_rebalance_error(0, true, true, "v24"),
        Some("建仓 0 笔:策略 v24 当日已发行标的均无建仓,可能权益曲线/ETF价格数据缺失".to_string())
    );
    assert_eq!(empty_rebalance_error(1, true, true, "v24"), None);
    assert_eq!(empty_rebalance_error(0, false, true, "v24"), None);
    assert_eq!(empty_rebalance_error(0, true, false, "v24"), None);
}
