use quant_api::calendar::CivilDate;
use quant_api::pretrade::{
    factor_refresh_route, pre_trade_combos, rejection_alert, FactorRefresh, PreTradeIssue,
};

#[test]
fn pre_trade_combos_fall_back_to_strategy_combo() {
    let active = vec!["alpha".to_string(), "full_pit_icir_37f".to_string()];
    assert_eq!(pre_trade_combos(active.clone(), "x"), active);
    assert_eq!(pre_trade_combos(vec![], " v24_combo "), vec!["v24_combo".to_string()]);
    assert_eq!(pre_trade_combos(vec![], ""), vec!["full_pit_icir_37f".to_string()]);
}

#[test]
fn factor_refresh_route_by_combo() {
    assert_eq!(factor_refresh_route("phase7_price_volume_expanded_v1"), FactorRefresh::Phase7Backfill);
    assert_eq!(factor_refresh_route("full_pit_icir_37f"), FactorRefresh::PitMaterialize);
}

#[test]
fn pre_trade_issue_messages() {
    assert_eq!(
        PreTradeIssue::EtfSyncFailed { symbol: "518880.SH".to_string(), gap: 3 }.message(),
        "ETF 518880.SH: 数据落后3交易日, 自动同步失败"
    );
    assert_eq!(
        PreTradeIssue::StockSyncFailed { probe: "000001.SZ".to_string() }.message(),
        "A股日线(000001.SZ): 数据落后, 自动同步失败"
    );
    assert_eq!(
        PreTradeIssue::FactorStillStale { combo: "c1".to_string(), gap: 999 }.message(),
        "因子(c1): 自动回填后仍落后999交易日, 请检查底层数据"
    );
    assert_eq!(
        PreTradeIssue::FactorTriggerFailed { combo: "c1".to_string() }.message(),
        "因子(c1): 自动回填触发失败"
    );
    assert_eq!(
        PreTradeIssue::FactorStillStale { combo: "c".to_string(), gap: i64::MIN }.message(),
        "因子(c): 自动回填后仍落后-9223372036854775808交易日, 请检查底层数据"
    );
}

#[test]
fn rejection_alert_lists_problems() {
    let d = CivilDate { year: 2026, month: 9, day: 21 };
    assert_eq!(
        rejection_alert(d, &vec!["a".to_string(), "b".to_string()]),
        "⛔ [调仓拒绝] 2026-09-21 数据异常，已尝试自动修复失败:\na\nb"
    );
}
