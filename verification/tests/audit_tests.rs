use quant_api::audit::task_order_issues;

fn tasks(v: &[(&str, &str)]) -> Vec<(String, String)> {
    v.iter().map(|(a, b)| (a.to_string(), b.to_string())).collect()
}

#[test]
fn task_order_audit_sound_schedule_has_no_issues() {
    let t = tasks(&[
        ("factor_backfill_daily", "5 9 * * 1-5"),
        ("pit_combo_refresh_daily", "30 9 * * 1-5"),
        ("data_quality_daily", "0 22 * * 1-5"),
        ("equity_curve_monthly", "0 10 1 * *"),
    ]);
    assert!(task_order_issues(&t).is_empty());
}

#[test]
fn task_order_audit_reports_missing_unreadable_and_early_tasks() {
    let t = tasks(&[
        ("factor_backfill_daily", "30 8 * * 1-5"),
        ("equity_curve_monthly", "0 8 1 * *"),
        ("broken", "x y"),
    ]);
    let issues = task_order_issues(&t);
    assert_eq!(
        issues,
        vec![
            "缺少必要定时任务: pit_combo_refresh_daily (PIT combo 保鲜(因子组合物化)) — 盘中调仓数据可能无保障, 请在 /tasks 页面配置".to_string(),
            "缺少必要定时任务: data_quality_daily (数据质量检查) — 盘中调仓数据可能无保障, 请在 /tasks 页面配置".to_string(),
            "broken: CRON 表达式 'x y' 字段数不是 5/6/7".to_string(),
            "factor_backfill_daily: CRON 8:30 (BJ) 早于日线同步完成 (16:10),\n                     因子计算可能缺少当日日线数据".to_string(),
            "equity_curve_monthly: CRON 8:00 (BJ) 早于 factor_backfill_daily (8:30),\n                         权益曲线可能缺少因子数据".to_string(),
        ]
    );
}

#[test]
fn task_order_audit_all_missing_on_empty_table() {
    let issues = task_order_issues(&vec![]);
    assert_eq!(issues.len(), 3);
    assert!(issues.iter().all(|i| i.contains("缺少必要定时任务")));
}
