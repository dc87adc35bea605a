use quant_api::calendar::CivilDate;
use quant_api::mail::{
    channel_tag, classify_mail, daily_report_section, imap_search_date, mirror_fill_id,
    mirror_order_id, mirror_snapshot_id, subject_date, tag_mismatch, MailKind,
};

fn date(year: i32, month: u32, day: u32) -> CivilDate {
    CivilDate { year, month, day }
}

#[test]
fn imap_search_date_english_month_names() {
    assert_eq!(imap_search_date(date(2026, 9, 21)), "21-Sep-2026");
    assert_eq!(imap_search_date(date(2026, 1, 1)), "01-Jan-2026");
    assert_eq!(imap_search_date(date(2026, 12, 31)), "31-Dec-2026");
    assert_eq!(imap_search_date(date(2025, 12, 31)), "31-Dec-2025");
}

#[test]
fn subject_date_parses_tail_segment() {
    assert_eq!(subject_date("ptrade_exec_sim_20260922"), Some(date(2026, 9, 22)));
    assert_eq!(subject_date("ptrade_exec_20260917"), Some(date(2026, 9, 17)));
    assert_eq!(subject_date("ptrade_heartbeat_sim"), None);
    assert_eq!(subject_date(""), None);
}

#[test]
fn subject_date_rejects_impossible_dates() {
    assert_eq!(subject_date("ptrade_exec_sim_20260230"), None);
    assert_eq!(subject_date("ptrade_exec_sim_x2026"), None);
}

#[test]
fn channel_tag_routes_sim_and_live() {
    assert_eq!(channel_tag("ptrade_exec_sim_20260922"), Some("sim"));
    assert_eq!(channel_tag("ptrade_exec_live_20260922"), Some("live"));
    assert_eq!(channel_tag("ptrade_exec_20260917"), None);
    assert_eq!(channel_tag("re: ptrade_exec_sim_x"), None);
    assert_eq!(channel_tag(""), None);
}

#[test]
fn classify_mail_keeps_recent_heartbeats_and_reports() {
    let yesterday = date(2026, 9, 21);
    assert_eq!(classify_mail("ptrade_exec_sim_20260922", yesterday), MailKind::Exec);
    assert_eq!(classify_mail("ptrade_exec_live_20260921", yesterday), MailKind::Exec);
    assert_eq!(classify_mail("ptrade_heartbeat_sim_20260922", yesterday), MailKind::Heartbeat);
    assert_eq!(classify_mail("ptrade_exec_sim_20260920", yesterday), MailKind::Skip);
    assert_eq!(classify_mail("ptrade_heartbeat_sim", yesterday), MailKind::Skip);
    assert_eq!(classify_mail("other_20260922", yesterday), MailKind::Skip);
}

#[test]
fn daily_report_section_alarm_without_mail() {
    assert_eq!(
        daily_report_section("sim", None, &vec![], &vec![]),
        "⚠️ [PTrade实盘日报·sim] 当日无 exec 回报且无心跳邮件——请检查 PTrade 策略状态与邮件通道(策略挂了? 15:00 后未发?)"
    );
}

#[test]
fn daily_report_section_lists_warning_heartbeats_and_reports() {
    let text = daily_report_section(
        "live",
        Some("imap timeout".to_string()),
        &vec!["ptrade_heartbeat_live_20260922".to_string()],
        &vec!["exec ok".to_string(), "exec 2".to_string()],
    );
    assert_eq!(
        text,
        "📊 [PTrade实盘日报·live]\n⚠️ 拉取部分异常: imap timeout\n🫀 心跳: ptrade_heartbeat_live_20260922\nexec ok\nexec 2"
    );
}

#[test]
fn tag_mismatch_only_for_tagged_reports_on_the_wrong_channel() {
    assert!(!tag_mismatch("ptrade_exec_sim_20260922", false));
    assert!(tag_mismatch("ptrade_exec_sim_20260922", true));
    assert!(!tag_mismatch("ptrade_exec_live_20260922", true));
    assert!(tag_mismatch("ptrade_exec_live_20260922", false));
    assert!(!tag_mismatch("ptrade_exec_20260917", true));
}

#[test]
fn mirror_ids() {
    assert_eq!(mirror_order_id("E123"), "po-E123");
    assert_eq!(mirror_fill_id("v24_20260922_001", "E123"), "pf-v24_20260922_001-E123");
    assert_eq!(mirror_snapshot_id("pa-1", date(2026, 9, 22)), "pns-pa-1-20260922");
}
