use quant_api::strategy::{AssetClass, StrategyType};
use quant_api::tree::{
    a_share_asset_index, build_asset_strategies, build_asset_strategy, parse_str_array,
    resolve_strategy_tree, AssetRowText, StrategyRowText,
};

fn s(x: &str) -> String {
    x.to_string()
}

fn asset_row(id: &str, class: &str) -> AssetRowText {
    AssetRowText {
        strategy_id: s(id),
        asset_class: s(class),
        signal_source: None,
        combo_name: None,
        top_n: None,
        prediction_set_id: None,
        score_direction: None,
        candidate_tier: None,
        equity_curve_task_id: None,
        etf_symbols: None,
    }
}

fn main_row(id: &str, kind: &str) -> StrategyRowText {
    StrategyRowText {
        strategy_id: s(id),
        name: s("v19策略"),
        strategy_type: s(kind),
        rebalance_freq: None,
        etf_symbols: Some(vec![
            Some(s("518880.SH")),
            Some(s("511010.SH")),
            None,
            Some(s("513500.SH")),
        ]),
    }
}

#[test]
fn parse_str_array_keeps_strings_in_order() {
    let v = Some(vec![Some(s("b")), None, Some(s("a")), Some(s("b"))]);
    assert_eq!(parse_str_array(&v), vec![s("b"), s("a"), s("b")]);
    assert!(parse_str_array(&None).is_empty());
    assert!(parse_str_array(&Some(vec![None, None])).is_empty());
}

#[test]
fn asset_row_defaults() {
    let a = build_asset_strategy(asset_row("v19-commodity", "commodity")).unwrap();
    assert_eq!(a.strategy_id, "v19-commodity");
    assert_eq!(a.asset_class, AssetClass::Commodity);
    assert_eq!(a.security.signal_source, "fixed");
    assert_eq!(a.security.combo_name, "");
    assert_eq!(a.security.top_n, 30);
    assert_eq!(a.security.score_direction, "descending");
    assert_eq!(a.security.candidate_tier, "research_baseline");
    assert!(a.security.prediction_set_id.is_none());
    assert!(a.security.equity_curve_task_id.is_none());
    assert!(a.security.fixed_symbols.is_empty());
}

#[test]
fn asset_row_keeps_given_settings() {
    let mut row = asset_row("v19-a_share", "a_share");
    row.signal_source = Some(s("prediction_blend"));
    row.combo_name = Some(s("full_pit_icir_37f"));
    row.top_n = Some(25);
    row.prediction_set_id = Some(s("ps-1"));
    row.candidate_tier = Some(s("professional_observation"));
    row.equity_curve_task_id = Some(s("fbt-ab3eecf6"));
    row.etf_symbols = Some(vec![Some(s("159980.SZ")), None]);
    let a = build_asset_strategy(row).unwrap();
    assert_eq!(a.asset_class, AssetClass::AShare);
    assert_eq!(a.security.signal_source, "prediction_blend");
    assert_eq!(a.security.combo_name, "full_pit_icir_37f");
    assert_eq!(a.security.top_n, 25);
    assert_eq!(a.security.prediction_set_id.as_deref(), Some("ps-1"));
    assert_eq!(a.security.candidate_tier, "professional_observation");
    assert_eq!(a.security.equity_curve_task_id.as_deref(), Some("fbt-ab3eecf6"));
    assert_eq!(a.security.fixed_symbols, vec![s("159980.SZ")]);
}

#[test]
fn asset_row_unknown_class_is_error() {
    let e = build_asset_strategy(asset_row("x1", "crypto")).unwrap_err();
    assert_eq!(e, "asset x1 (crypto): 非法 asset_class: crypto");
}

#[test]
fn asset_rows_first_error_wins() {
    let rows = vec![
        asset_row("a", "bond"),
        asset_row("b", "gold"),
        asset_row("c", "fx"),
    ];
    let e = build_asset_strategies(rows).unwrap_err();
    assert_eq!(e, "asset b (gold): 非法 asset_class: gold");
    let ok = build_asset_strategies(vec![asset_row("a", "bond"), asset_row("c", "cash")]).unwrap();
    assert_eq!(ok.len(), 2);
    assert_eq!(ok[1].asset_class, AssetClass::Cash);
}

#[test]
fn resolve_missing_main_row() {
    let e = resolve_strategy_tree("nonexistent_strategy", None, None, vec![]).unwrap_err();
    assert!(e.contains("strategy not found"));
    assert_eq!(e, "strategy not found: nonexistent_strategy");
}

#[test]
fn resolve_composite_tree() {
    let children = vec![
        asset_row("v19-a_share", "a_share"),
        asset_row("v19-bond", "bond"),
        asset_row("v19-commodity", "commodity"),
        asset_row("v19-us_stock", "us_stock"),
    ];
    let t = resolve_strategy_tree("v19", Some(main_row("v19", "composite")), None, children)
        .unwrap();
    assert_eq!(t.strategy_type, StrategyType::Composite);
    assert_eq!(t.strategy_id, "v19");
    assert_eq!(t.name, "v19策略");
    assert_eq!(t.assets.len(), 4);
    assert_eq!(t.assets[3].strategy_id, "v19-us_stock");
    assert_eq!(t.etf_symbols, vec![s("518880.SH"), s("511010.SH"), s("513500.SH")]);
    assert_eq!(t.rebalance_freq, "quarterly");
}

#[test]
fn resolve_composite_without_assets() {
    let e = resolve_strategy_tree("v19", Some(main_row("v19", "composite")), None, vec![])
        .unwrap_err();
    assert_eq!(e, "composite 无资产子策略: v19");
}

#[test]
fn resolve_asset_strategy_holds_itself() {
    let mut m = main_row("gold-only", "asset");
    m.rebalance_freq = Some(s("monthly"));
    let t = resolve_strategy_tree(
        "gold-only",
        Some(m),
        Some(asset_row("gold-only", "commodity")),
        vec![asset_row("ignored", "bond")],
    )
    .unwrap();
    assert_eq!(t.strategy_type, StrategyType::Asset);
    assert_eq!(t.assets.len(), 1);
    assert_eq!(t.assets[0].strategy_id, "gold-only");
    assert_eq!(t.rebalance_freq, "monthly");
    let e = resolve_strategy_tree("gold-only", Some(main_row("gold-only", "asset")), None, vec![])
        .unwrap_err();
    assert_eq!(e, "asset row not found: gold-only");
}

#[test]
fn resolve_bad_child_class() {
    let e = resolve_strategy_tree(
        "v19",
        Some(main_row("v19", "composite")),
        None,
        vec![asset_row("v19-a_share", "a_share"), asset_row("v19-x", "x")],
    )
    .unwrap_err();
    assert_eq!(e, "asset v19-x (x): 非法 asset_class: x");
}

#[test]
fn a_share_asset_for_flat_config() {
    let children = vec![
        asset_row("v19-bond", "bond"),
        asset_row("v19-a_share", "a_share"),
        asset_row("v19-a_share-2", "a_share"),
    ];
    let t = resolve_strategy_tree("v19", Some(main_row("v19", "composite")), None, children)
        .unwrap();
    assert_eq!(a_share_asset_index(&t, true), Ok(1));
    assert_eq!(a_share_asset_index(&t, false), Err(s("策略 v19 缺 mvo 配置")));
    let t2 = resolve_strategy_tree(
        "v19",
        Some(main_row("v19", "composite")),
        None,
        vec![asset_row("v19-commodity", "commodity"), asset_row("v19-bond", "bond")],
    )
    .unwrap();
    let e = a_share_asset_index(&t2, true).unwrap_err();
    assert!(e.contains("缺 a_share asset"));
    assert_eq!(e, "策略 v19 缺 a_share asset");
}
