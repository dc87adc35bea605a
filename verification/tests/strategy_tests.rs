use quant_api::strategy::{
    active_etf_symbols_union, active_factor_combos, build_mvo_symbol_list, default_candidate_tier,
    default_combo_name, default_etf_symbols, default_mvo_lookback, default_mvo_lookback_years,
    default_mvo_objective, default_rebalance_freq, default_score_candidate_pool_size,
    default_score_direction, default_signal_source, default_top_n, default_top_n_mvo,
    mvo_sim_default_etfs, mvo_sim_default_leverage_mode, mvo_sim_default_lookback,
    mvo_sim_default_rebalance, AssetClass, StrategyType,
};

fn strings(v: &[&str]) -> Vec<String> {
    v.iter().map(|s| s.to_string()).collect()
}

#[test]
fn test_asset_class_from_db() {
    assert_eq!(AssetClass::from_db("a_share").unwrap(), AssetClass::AShare);
    assert_eq!(AssetClass::from_db("us_stock").unwrap(), AssetClass::UsStock);
    assert_eq!(AssetClass::from_db("commodity").unwrap(), AssetClass::Commodity);
    assert!(AssetClass::from_db("invalid").is_err());
}

#[test]
fn asset_class_from_db_all_names_and_error_text() {
    assert_eq!(AssetClass::from_db("bond").unwrap(), AssetClass::Bond);
    assert_eq!(AssetClass::from_db("cash").unwrap(), AssetClass::Cash);
    assert_eq!(AssetClass::from_db("A_SHARE").unwrap_err(), "非法 asset_class: A_SHARE");
}

#[test]
fn strategy_type_from_db() {
    assert_eq!(StrategyType::from_db("asset"), StrategyType::Asset);
    assert_eq!(StrategyType::from_db("composite"), StrategyType::Composite);
    assert_eq!(StrategyType::from_db(""), StrategyType::Composite);
}

#[test]
fn configuration_defaults() {
    assert_eq!(default_signal_source(), "prediction_blend");
    assert_eq!(default_combo_name(), "full_pit_icir_37f");
    assert_eq!(default_top_n(), 30);
    assert_eq!(default_score_candidate_pool_size(), 200);
    assert_eq!(default_score_direction(), "descending");
    assert_eq!(default_candidate_tier(), "research_baseline");
    assert_eq!(default_mvo_objective(), "minvariance");
    assert_eq!(default_mvo_lookback(), 36);
    assert_eq!(default_top_n_mvo(), 20);
    assert_eq!(default_rebalance_freq(), "annual");
    assert_eq!(default_mvo_lookback_years(), 5);
    let etfs = strings(&["518880.SH", "511010.SH", "513500.SH", "513100.SH"]);
    assert_eq!(default_etf_symbols(), etfs);
    assert_eq!(mvo_sim_default_etfs(), etfs);
    assert_eq!(mvo_sim_default_lookback(), 36);
    assert_eq!(mvo_sim_default_rebalance(), "quarterly");
    assert_eq!(mvo_sim_default_leverage_mode(), "fixed");
}

#[test]
fn build_mvo_symbol_list_puts_index_first() {
    assert_eq!(
        build_mvo_symbol_list(&strings(&["518880.SH", "511010.SH"])),
        strings(&["000300.SH", "518880.SH", "511010.SH"])
    );
    assert_eq!(build_mvo_symbol_list(&vec![]), strings(&["000300.SH"]));
}

#[test]
fn active_etf_symbols_union_returns_sorted_deduped_set() {
    let rows = vec![
        Some(vec![Some("513100.SH".to_string()), Some("518880.SH".to_string()), None]),
        None,
        Some(vec![Some("518880.SH".to_string()), Some("511010.SH".to_string())]),
    ];
    assert_eq!(
        active_etf_symbols_union(&rows),
        strings(&["511010.SH", "513100.SH", "518880.SH"])
    );
    assert!(active_etf_symbols_union(&vec![]).is_empty());
}

#[test]
fn active_factor_combos_dedupes_active_declarations() {
    let rows = vec![
        Some(" full_pit_icir_37f ".to_string()),
        Some("full_pit_icir_37f".to_string()),
        None,
        Some("   ".to_string()),
        Some("alpha_combo".to_string()),
    ];
    assert_eq!(active_factor_combos(&rows), strings(&["alpha_combo", "full_pit_icir_37f"]));
}
