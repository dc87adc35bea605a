use quant_api::factor_run::{run_factor_params, wfa_text};

fn entries(pairs: &[(&str, &str)]) -> Vec<(String, String)> {
    pairs.iter().map(|(k, v)| (k.to_string(), v.to_string())).collect()
}

#[test]
fn wfa_text_finds_the_first_entry() {
    let e = entries(&[("a", "1"), ("b", "2"), ("a", "3")]);
    assert_eq!(wfa_text(&e, "a"), Some("1".to_string()));
    assert_eq!(wfa_text(&e, "b"), Some("2".to_string()));
    assert_eq!(wfa_text(&e, "c"), None);
    assert_eq!(wfa_text(&Vec::new(), "a"), None);
}

#[test]
fn run_factor_params_defaults_without_wfa() {
    let p = run_factor_params(&Vec::new(), None, "full_pit_icir_37f", 30);
    assert_eq!(p.combo_name, "full_pit_icir_37f");
    assert_eq!(p.top_n, 30);
    assert_eq!(p.rebalance, "40");
    assert_eq!(p.score_direction, "descending");
    assert_eq!(p.portfolio_method, "heuristic");
    assert!(p.max_position_pct.is_none());
    assert!(p.max_gross_exposure.is_none());
    assert!(p.skip_top_pct.is_none());
    assert!(p.stop_loss_pct.is_none());
    assert!(p.event_gate_combo_name.is_none());
    assert!(p.candidate_risk_filter.is_none());
    assert!(p.partial_rebalance_ratio.is_none());
    assert!(p.event_gate_min_score.is_none());
}

#[test]
fn run_factor_params_merges_wfa_and_risk_passthrough() {
    let e = entries(&[
        ("combo_name", "wfa_combo"),
        ("rebalance", "20"),
        ("score_direction", "ascending"),
        ("portfolio_method", "risk_parity"),
        ("max_position_pct", "0.08"),
        ("stop_loss_pct", "0.12"),
        ("event_gate_mode", "soft"),
        ("max_pairwise_correlation", "0.7"),
        ("risk_contribution_control", "on"),
    ]);
    let p = run_factor_params(&e, Some(25), "full_pit_icir_37f", 30);
    assert_eq!(p.combo_name, "wfa_combo");
    assert_eq!(p.top_n, 25);
    assert_eq!(p.rebalance, "20");
    assert_eq!(p.score_direction, "ascending");
    assert_eq!(p.portfolio_method, "risk_parity");
    assert_eq!(p.max_position_pct.as_deref(), Some("0.08"));
    assert!(p.max_gross_exposure.is_none());
    assert_eq!(p.stop_loss_pct.as_deref(), Some("0.12"));
    assert_eq!(p.event_gate_mode.as_deref(), Some("soft"));
    assert!(p.event_gate_combo_name.is_none());
    assert_eq!(p.max_pairwise_correlation.as_deref(), Some("0.7"));
    assert_eq!(p.risk_contribution_control.as_deref(), Some("on"));
    assert!(p.portfolio_drawdown_control.is_none());
}
