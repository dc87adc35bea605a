use quant_api::combos::{merge_combo_materialize_configs, pit_refresh_combos, ComboConfigRow};

fn row(
    name: Option<&str>,
    fund: Option<bool>,
    wl: Option<Vec<&str>>,
    horizon: Option<i16>,
    ind: bool,
    mode: &str,
) -> ComboConfigRow {
    ComboConfigRow {
        combo_name: name.map(|s| s.to_string()),
        include_fundamentals: fund,
        factor_whitelist: wl.map(|v| v.iter().map(|s| s.to_string()).collect()),
        combo_horizon: horizon,
        ind_neutral: ind,
        materialize_mode: mode.to_string(),
    }
}

#[test]
fn merge_combo_configs_merges_declarations_by_trimmed_name() {
    let rows = vec![
        row(Some(" full_pit_icir_37f "), Some(false), None, None, false, "pit"),
        row(Some("full_pit_icir_37f"), Some(true), Some(vec!["f1", "f2"]), Some(20), false, "phase7_backfill"),
        row(Some("full_pit_icir_37f"), None, Some(vec!["f3"]), Some(60), true, "pit"),
        row(Some("alpha"), None, None, None, false, "pit"),
        row(Some("   "), Some(true), None, None, true, "phase7_backfill"),
        row(None, Some(true), None, None, true, "pit"),
    ];
    let merged = merge_combo_materialize_configs(rows);
    assert_eq!(merged.len(), 2);
    assert_eq!(merged[0].combo_name, "alpha");
    assert!(!merged[0].include_fundamentals);
    assert_eq!(merged[0].factor_whitelist, None);
    assert_eq!(merged[0].materialize_mode, "pit");
    let c = &merged[1];
    assert_eq!(c.combo_name, "full_pit_icir_37f");
    assert!(c.include_fundamentals);
    assert_eq!(c.factor_whitelist, Some(vec!["f1".to_string(), "f2".to_string()]));
    assert_eq!(c.combo_horizon, Some(20));
    assert!(c.ind_neutral);
    assert_eq!(c.materialize_mode, "phase7_backfill");
}

#[test]
fn pit_combo_refresh_filter_keeps_full_pit_prefix_combos_only() {
    let rows = vec![
        row(Some("full_pit_icir_37f_h20_fund_v2"), None, None, Some(20), false, "pit"),
        row(Some("full_pit_icir_indneutral_val_v1"), None, None, None, true, "pit"),
        row(Some("phase7_zzz"), None, None, None, false, "pit"),
    ];
    let daily = pit_refresh_combos(merge_combo_materialize_configs(rows), false);
    let names: Vec<&str> = daily.iter().map(|c| c.combo_name.as_str()).collect();
    assert_eq!(names, vec!["full_pit_icir_37f_h20_fund_v2", "full_pit_icir_indneutral_val_v1"]);
    let rows = vec![
        row(Some("full_pit_icir_37f_h20_fund_v2"), None, None, Some(20), false, "pit"),
        row(Some("full_pit_icir_indneutral_val_v1"), None, None, None, true, "pit"),
    ];
    let nightly = pit_refresh_combos(merge_combo_materialize_configs(rows), true);
    let names: Vec<&str> = nightly.iter().map(|c| c.combo_name.as_str()).collect();
    assert_eq!(names, vec!["full_pit_icir_37f_h20_fund_v2"]);
}
