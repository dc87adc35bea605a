use quant_api::calendar::CivilDate;
use quant_api::schedule::{
    backfill_wait_step, freshness_lag, is_eod_sync_window, is_rebalance_window, is_wfa_window,
    market_level_freshness_dataset, market_level_freshness_sources,
    market_level_freshness_sync_payload, market_level_freshness_task_slug, normalize_cron_expr,
    pre_trade_factor_combo, run_status, scheduled_task_time_minutes, select_backfill_routes,
    t1_sync_date, task_kind, task_run_record, v24_backfill_routes_fallback, wfa_action, next_run_at,
    BackfillWait, DailyState, TaskKind, WfaAction, DAY_MICROS,
};

fn date(year: i32, month: u32, day: u32) -> CivilDate {
    CivilDate { year, month, day }
}

#[test]
fn normalize_cron_expr_accepts_existing_five_field_task_crons() {
    assert_eq!(normalize_cron_expr("0 9 * * 1-5"), "0 0 9 * * 1-5");
    assert_eq!(normalize_cron_expr("30 16 * * 1-5"), "0 30 16 * * 1-5");
    assert_eq!(normalize_cron_expr("0 30 16 * * 1-5"), "0 30 16 * * 1-5");
}

#[test]
fn scheduled_task_time_supports_five_and_six_field_crons() {
    assert_eq!(
        scheduled_task_time_minutes("30 16 * * 1-5").expect("five field cron"),
        16 * 60 + 30
    );
    assert_eq!(
        scheduled_task_time_minutes("0 30 10 * * 1-5").expect("six field cron"),
        10 * 60 + 30
    );
    assert!(scheduled_task_time_minutes("not a cron").is_err());
}

#[test]
fn market_level_freshness_payload_uses_latest_plus_one_range() {
    let payload = market_level_freshness_sync_payload(
        "market_margin_regime",
        Some(date(2026, 6, 18)),
        date(2026, 6, 20),
    )
    .expect("margin payload");

    assert_eq!(payload.dataset, "margin");
    assert_eq!(payload.source, "tushare");
    assert_eq!(payload.start_date, "20260619");
    assert_eq!(payload.end_date, "20260620");
    assert!(payload.background);
    assert_eq!(payload.data_version_id, "dv-p315-margin-20260620");
}

#[test]
fn market_level_freshness_payload_supports_hsgt_and_rejects_static_industry() {
    let payload = market_level_freshness_sync_payload(
        "market_moneyflow_hsgt_regime",
        Some(date(2026, 5, 29)),
        date(2026, 6, 20),
    )
    .expect("hsgt payload");

    assert_eq!(payload.dataset, "moneyflow_hsgt");
    assert_eq!(payload.start_date, "20260530");
    assert!(market_level_freshness_sync_payload("industry_prosperity_proxy", None, date(2026, 6, 20))
        .is_none());
}

#[test]
fn eod_sync_window_does_not_replay_after_startup_late_in_day() {
    assert!(is_eod_sync_window(21, 30));
    assert!(is_eod_sync_window(21, 39));
    assert!(!is_eod_sync_window(21, 40));
    assert!(!is_eod_sync_window(21, 29));
    assert!(!is_eod_sync_window(16, 0));
    assert!(!is_eod_sync_window(20, 0));
    assert!(!is_eod_sync_window(22, 0));
    assert!(!is_eod_sync_window(23, 0));
}

#[test]
fn pre_trade_factor_combo_uses_active_strategy_combo_not_price_volume_fallback() {
    assert_eq!(pre_trade_factor_combo("full_pit_icir_37f"), "full_pit_icir_37f");
}

#[test]
fn pre_trade_factor_combo_empty_falls_back_to_canonical() {
    assert_eq!(pre_trade_factor_combo("  "), "full_pit_icir_37f");
}

#[test]
fn pre_trade_factor_combo_trims_declared_name() {
    assert_eq!(pre_trade_factor_combo("  full_pit_icir_37f_h20_fund_v2 "), "full_pit_icir_37f_h20_fund_v2");
    assert_eq!(pre_trade_factor_combo(""), "full_pit_icir_37f");
}

#[test]
fn scheduled_task_time_minutes_rejects_invalid_shapes_and_ranges() {
    assert!(scheduled_task_time_minutes("30 16 * *").is_err());
    assert!(scheduled_task_time_minutes("0 30 16 * * 1-5 2026 extra").is_err());
    assert!(scheduled_task_time_minutes("x 9 * * 1-5").is_err());
    assert!(scheduled_task_time_minutes("30 y * * 1-5").is_err());
    assert!(scheduled_task_time_minutes("60 9 * * 1-5").is_err());
    assert!(scheduled_task_time_minutes("0 24 * * 1-5").is_err());
    assert_eq!(
        scheduled_task_time_minutes("0 30 16 * * 1-5 2026").unwrap(),
        16 * 60 + 30
    );
}

#[test]
fn scheduled_task_time_minutes_error_texts() {
    assert_eq!(
        scheduled_task_time_minutes("30 16 * *").unwrap_err(),
        "CRON 表达式 '30 16 * *' 字段数不是 5/6/7"
    );
    assert_eq!(
        scheduled_task_time_minutes("x 9 * * 1-5").unwrap_err(),
        "CRON 表达式 'x 9 * * 1-5' 分字段不是固定数字"
    );
    assert_eq!(
        scheduled_task_time_minutes("30 y * * 1-5").unwrap_err(),
        "CRON 表达式 '30 y * * 1-5' 时字段不是固定数字"
    );
    assert_eq!(
        scheduled_task_time_minutes("0 24 * * 1-5").unwrap_err(),
        "CRON 表达式 '0 24 * * 1-5' 时/分超出范围"
    );
    // `str::parse::<u32>` accepts a leading plus sign.
    assert_eq!(scheduled_task_time_minutes("+5 +9 * * 1-5").unwrap(), 9 * 60 + 5);
}

#[test]
fn normalize_cron_expr_passes_through_non_five_field_expressions() {
    assert_eq!(normalize_cron_expr("30 16 * *"), "30 16 * *");
    assert_eq!(normalize_cron_expr("0  30   16 * * 1-5"), "0 30 16 * * 1-5");
}

#[test]
fn market_level_freshness_dataset_and_task_slug_mappings() {
    assert_eq!(market_level_freshness_dataset("market_margin_regime"), Some("margin"));
    assert_eq!(
        market_level_freshness_dataset("market_moneyflow_hsgt_regime"),
        Some("moneyflow_hsgt")
    );
    assert_eq!(market_level_freshness_dataset("industry_prosperity"), None);

    assert_eq!(market_level_freshness_task_slug("market_margin_regime"), Some("margin"));
    assert_eq!(market_level_freshness_task_slug("market_moneyflow_hsgt_regime"), Some("hsgt"));
    assert_eq!(market_level_freshness_task_slug("unknown_source"), None);
}

#[test]
fn market_level_freshness_sources_parses_filters_and_defaults() {
    let defaults = market_level_freshness_sources(None);
    assert_eq!(
        defaults,
        vec![
            "market_margin_regime".to_string(),
            "market_moneyflow_hsgt_regime".to_string(),
        ]
    );
    assert_eq!(market_level_freshness_sources(Some(vec![])), defaults);
    let parsed = market_level_freshness_sources(Some(vec![
        Some("  market_margin_regime ".to_string()),
        Some(String::new()),
        None,
        Some("market_moneyflow_hsgt_regime".to_string()),
    ]));
    assert_eq!(
        parsed,
        vec![
            "market_margin_regime".to_string(),
            "market_moneyflow_hsgt_regime".to_string(),
        ]
    );
}

#[test]
fn market_level_freshness_sources_keeps_configured_order() {
    let parsed = market_level_freshness_sources(Some(vec![Some(
        " market_moneyflow_hsgt_regime".to_string(),
    )]));
    assert_eq!(parsed, vec!["market_moneyflow_hsgt_regime".to_string()]);
}

#[test]
fn market_level_freshness_payload_without_latest_starts_from_today() {
    let payload = market_level_freshness_sync_payload("market_margin_regime", None, date(2026, 6, 20))
        .expect("payload");
    assert_eq!(payload.start_date, "20260620");
    assert_eq!(payload.end_date, "20260620");
}

#[test]
fn market_level_freshness_payload_clamps_and_increments_start() {
    let today = date(2026, 6, 20);

    let p = market_level_freshness_sync_payload("market_margin_regime", Some(date(2026, 6, 19)), today)
        .expect("payload");
    assert_eq!(p.start_date, "20260620");

    let p = market_level_freshness_sync_payload(
        "market_moneyflow_hsgt_regime",
        Some(date(2026, 5, 11)),
        today,
    )
    .expect("payload");
    assert_eq!(p.start_date, "20260512");

    let p = market_level_freshness_sync_payload("market_margin_regime", Some(today), today)
        .expect("payload");
    assert_eq!(p.start_date, "20260620");
}

#[test]
fn market_level_freshness_payload_rejects_unknown_source() {
    let today = date(2026, 6, 20);
    assert!(market_level_freshness_sync_payload("zzz_test_sch12_unknown_source", Some(today), today)
        .is_none());
    assert!(market_level_freshness_sync_payload("zzz_test_sch12_unknown_source", None, today).is_none());
}

#[test]
fn market_level_freshness_payload_crosses_month_and_year_ends() {
    let p = market_level_freshness_sync_payload(
        "market_moneyflow_hsgt_regime",
        Some(date(2025, 12, 31)),
        date(2026, 1, 5),
    )
    .expect("payload");
    assert_eq!(p.start_date, "20260101");
    assert_eq!(p.data_version_id, "dv-p315-hsgt-20260105");
    assert_eq!(p.reason, "scheduled_p315_market_level_regime_source_freshness");
    let p = market_level_freshness_sync_payload("market_margin_regime", Some(date(2024, 2, 28)), date(2024, 3, 2))
        .expect("payload");
    assert_eq!(p.start_date, "20240229");
}

#[test]
fn backfill_routes_fallback_constant_shape() {
    let fallback = v24_backfill_routes_fallback();
    assert!(fallback.len() >= 12);
    let routes: Vec<&str> = fallback.iter().map(|(r, _)| r.as_str()).collect();
    let unique: std::collections::BTreeSet<&str> = routes.iter().copied().collect();
    assert_eq!(routes.len(), unique.len());
    for (route, label) in &fallback {
        assert!(!route.contains(' '), "{route}");
        assert!(route.ends_with("-backfill"), "{route}");
        assert!(!label.is_empty(), "{route}");
    }
    assert!(routes.contains(&"phase7-price-volume-backfill"));
}

#[test]
fn select_backfill_routes_prefers_enabled_table_rows() {
    let rows = vec![("r1-backfill".to_string(), "L1".to_string())];
    assert_eq!(select_backfill_routes(Some(rows.clone())), rows);
    assert_eq!(select_backfill_routes(Some(vec![])), v24_backfill_routes_fallback());
    assert_eq!(select_backfill_routes(None), v24_backfill_routes_fallback());
}

#[test]
fn rebalance_window_morning_and_afternoon_hours() {
    assert!(is_rebalance_window(9, 35, 9));
    assert!(is_rebalance_window(10, 30, 9));
    assert!(!is_rebalance_window(10, 31, 9));
    assert!(!is_rebalance_window(9, 34, 9));
    assert!(is_rebalance_window(14, 59, 14));
    assert!(!is_rebalance_window(15, 0, 14));
}

#[test]
fn wfa_window_needs_quarter_start_trading_day_at_nine_pm() {
    assert!(is_wfa_window(1, Some(true), 21));
    assert!(is_wfa_window(10, Some(true), 21));
    assert!(!is_wfa_window(2, Some(true), 21));
    assert!(!is_wfa_window(4, Some(false), 21));
    assert!(!is_wfa_window(7, None, 21));
    assert!(!is_wfa_window(7, Some(true), 22));
}

#[test]
fn daily_state_runs_each_step_once_per_day() {
    let mut st = DailyState::new();
    let monday = date(2026, 9, 21);
    st.roll_to(monday);
    assert!(st.begin_rebalance(true, 9, 40, 9));
    assert!(!st.begin_rebalance(true, 9, 45, 9));
    assert!(st.begin_eod_sync(21, 30));
    assert!(!st.begin_eod_sync(21, 35));
    assert!(st.begin_t1_sync(9, 0));
    assert!(!st.begin_t1_sync(9, 1));
    assert!(st.cleanup_due(16, 10));
    st.on_cleanup_done();
    assert!(!st.cleanup_due(16, 11));
    // Same day again: nothing is reset.
    st.roll_to(monday);
    assert!(st.traded_today && st.eod_synced_today && st.yesterday_synced && st.cleanup_done);
    // A new day clears every flag.
    st.roll_to(date(2026, 9, 22));
    assert_eq!(
        st,
        DailyState {
            date: Some(date(2026, 9, 22)),
            traded_today: false,
            eod_synced_today: false,
            yesterday_synced: false,
            cleanup_done: false,
            report_pushed: false,
        }
    );
}

#[test]
fn daily_state_rejected_rebalance_runs_again() {
    let mut st = DailyState::new();
    st.roll_to(date(2026, 9, 21));
    assert!(!st.begin_rebalance(false, 9, 40, 9));
    assert!(!st.begin_rebalance(true, 9, 20, 9));
    assert!(st.begin_rebalance(true, 9, 40, 9));
    st.on_rebalance_rejected();
    assert!(st.begin_rebalance(true, 9, 50, 9));
}

#[test]
fn daily_state_report_pushed_only_on_trading_days() {
    let mut st = DailyState::new();
    st.roll_to(date(2026, 9, 19));
    st.on_eod_synced(false);
    assert!(!st.report_pushed);
    st.on_eod_synced(true);
    assert!(st.report_pushed);
}

#[test]
fn wfa_action_branches() {
    assert_eq!(wfa_action(1, true, Some(3)), WfaAction::AlreadyCovered);
    assert_eq!(wfa_action(0, true, None), WfaAction::ExtractWhileRunning);
    assert_eq!(wfa_action(0, false, Some(12)), WfaAction::ExtractRecent(12));
    assert_eq!(wfa_action(0, false, Some(30)), WfaAction::Launch);
    assert_eq!(wfa_action(0, false, None), WfaAction::Launch);
}

#[test]
fn backfill_wait_step_branches() {
    assert_eq!(backfill_wait_step(0, true), BackfillWait::AllTerminal);
    assert_eq!(backfill_wait_step(3, true), BackfillWait::TimedOut(3));
    assert_eq!(backfill_wait_step(3, false), BackfillWait::Poll);
}

#[test]
fn freshness_lag_classifies_fresh_stale_and_missing() {
    assert_eq!(freshness_lag(Some(1), 2), None);
    assert_eq!(freshness_lag(Some(2), 2), None);
    assert_eq!(freshness_lag(Some(3), 2), Some(3));
    assert_eq!(freshness_lag(None, 2), Some(999));
}

#[test]
fn task_kind_dispatch_table() {
    assert_eq!(task_kind("factor_backfill"), Some(TaskKind::FactorBackfill));
    assert_eq!(task_kind("market_level_source_freshness"), Some(TaskKind::MarketLevelSourceFreshness));
    assert_eq!(task_kind("nightly_signal_prep"), Some(TaskKind::NightlySignalPrep));
    assert_eq!(task_kind("zzz_unknown"), None);
    assert_eq!(run_status(task_kind("pit_combo_refresh")), "success");
    assert_eq!(run_status(task_kind("zzz_unknown")), "unhandled");
}

#[test]
fn t1_sync_date_falls_back_to_yesterday() {
    assert_eq!(t1_sync_date(Some(date(2026, 9, 18)), date(2026, 9, 21)), date(2026, 9, 18));
    assert_eq!(t1_sync_date(None, date(2026, 3, 1)), date(2026, 2, 28));
    assert_eq!(t1_sync_date(None, date(2024, 1, 1)), date(2023, 12, 31));
}

#[test]
fn next_run_at_defaults_to_one_day_later() {
    assert_eq!(next_run_at(Some(5), 1_000), 5);
    assert_eq!(next_run_at(None, 1_000), 1_000 + DAY_MICROS);
}

#[test]
fn task_run_record_status_and_cron_fallback() {
    let now = chrono::Utc::now().timestamp_micros();
    let ok = task_run_record("factor_backfill_daily", "5 9 * * MON-FRI", task_kind("factor_backfill"), now);
    assert_eq!(ok.status, "success");
    assert!(ok.cron_warning.is_none());
    assert!(ok.next_run_at > now - 60_000_000);

    let bad = task_run_record("zzz", "not a cron", task_kind("zzz_unknown"), 1_000);
    assert_eq!(bad.status, "unhandled");
    assert_eq!(bad.next_run_at, 1_000 + DAY_MICROS);
    let w = bad.cron_warning.expect("warning");
    assert!(w.starts_with("任务 zzz 的 CRON 表达式 'not a cron' 规范化为 'not a cron' 后仍无效: "), "{w}");
    assert!(w.ends_with("，默认 1 天后"), "{w}");
    let e = "not a cron".parse::<cron::Schedule>().unwrap_err().to_string();
    assert_eq!(
        w,
        format!("任务 zzz 的 CRON 表达式 'not a cron' 规范化为 'not a cron' 后仍无效: {e}，默认 1 天后")
    );
}

#[test]
fn normalizing_twice_changes_nothing_and_keeps_the_time() {
    for expr in ["30 16 * * 1-5", "0  30   16 * * 1-5", "5 9 * * MON-FRI", "x y", " 0 9 * * *  "] {
        let once = normalize_cron_expr(expr);
        assert_eq!(normalize_cron_expr(&once), once, "{expr}");
        match scheduled_task_time_minutes(expr) {
            Ok(t) => assert_eq!(scheduled_task_time_minutes(&once), Ok(t), "{expr}"),
            Err(_) => assert!(scheduled_task_time_minutes(&once).is_err(), "{expr}"),
        }
    }
}
