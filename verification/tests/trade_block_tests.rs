use quant_api::trade_block::{a_share_symbols, is_a_share_symbol, trade_block_entries, TradeBlock};

#[test]
fn a_share_event_gate_only_targets_main_a_share_symbols() {
    assert!(is_a_share_symbol("000001.SZ"));
    assert!(is_a_share_symbol("600000.SH"));
    assert!(is_a_share_symbol("300750.SZ"));
    assert!(!is_a_share_symbol("518880.SH"));
    assert!(!is_a_share_symbol("513500.SH"));
    assert!(!is_a_share_symbol("AAPL.US"));
}

#[test]
fn a_share_symbols_keeps_order_and_filters() {
    let v: Vec<String> = ["600519.SH", "518880.SH", "000001.SZ", "AAPL.US"]
        .iter()
        .map(|s| s.to_string())
        .collect();
    assert_eq!(a_share_symbols(&v), vec!["600519.SH".to_string(), "000001.SZ".to_string()]);
}

#[test]
fn blocks_side_by_reason_and_direction() {
    let suspended = TradeBlock { reason: "停牌".to_string(), limit_type: None };
    assert!(suspended.blocks_side("buy"));
    assert!(suspended.blocks_side("sell"));
    let up = TradeBlock { reason: "涨跌停".to_string(), limit_type: Some('U') };
    assert!(up.blocks_side("buy"));
    assert!(!up.blocks_side("sell"));
    let down = TradeBlock { reason: "涨跌停".to_string(), limit_type: Some('D') };
    assert!(!down.blocks_side("buy"));
    assert!(down.blocks_side("sell"));
    let unknown = TradeBlock { reason: "涨跌停".to_string(), limit_type: None };
    assert!(unknown.blocks_side("buy"));
    assert!(unknown.blocks_side("sell"));
}

#[test]
fn trade_block_entries_first_row_wins() {
    let rows = vec![
        ("600000.SH".to_string(), "停牌".to_string(), None),
        ("000001.SZ".to_string(), "涨跌停".to_string(), Some("U".to_string())),
        ("600000.SH".to_string(), "涨跌停".to_string(), Some("D".to_string())),
        ("300750.SZ".to_string(), "涨跌停".to_string(), Some(String::new())),
    ];
    let entries = trade_block_entries(rows);
    assert_eq!(entries.len(), 3);
    assert_eq!(entries[0].0, "600000.SH");
    assert_eq!(entries[0].1.reason, "停牌");
    assert_eq!(entries[0].1.limit_type, None);
    assert_eq!(entries[1].0, "000001.SZ");
    assert_eq!(entries[1].1.limit_type, Some('U'));
    assert_eq!(entries[2].0, "300750.SZ");
    assert_eq!(entries[2].1.limit_type, None);
}
