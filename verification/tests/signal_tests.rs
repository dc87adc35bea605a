use chrono::TimeZone;
use quant_api::calendar::CivilDate;
use quant_api::signal::{
    account_type, blocked_side, check_channel, closed_day_pass, export_accounts, from_ptrade_symbol, sha1_hex, signal_file_name,
    signal_id, to_ptrade_symbol, verify_combo_materialization_freshness, PtradeChannel,
};

fn date(year: i32, month: u32, day: u32) -> CivilDate {
    CivilDate { year, month, day }
}

fn utc_micros(y: i32, mo: u32, d: u32, h: u32, mi: u32, s: u32) -> i64 {
    chrono::Utc
        .with_ymd_and_hms(y, mo, d, h, mi, s)
        .unwrap()
        .timestamp_micros()
}

/// The canonical text of a payload: `serde_json` with sorted keys and no spaces.
fn canonical_sha1(payload: &serde_json::Value) -> String {
    let canonical = serde_json::to_string(payload).unwrap_or_default();
    sha1_hex(canonical.as_bytes())
}

fn obj(pairs: Vec<(&str, serde_json::Value)>) -> serde_json::Value {
    let mut m = serde_json::Map::new();
    for (k, v) in pairs {
        m.insert(k.to_string(), v);
    }
    serde_json::Value::Object(m)
}

fn s(v: &str) -> serde_json::Value {
    serde_json::Value::String(v.to_string())
}

fn n(v: f64) -> serde_json::Value {
    serde_json::Value::from(v)
}

#[test]
fn canonical_sha1_matches_python_reference() {
    let payload = obj(vec![
        ("version", serde_json::Value::from(1)),
        ("signal_id", s("t1")),
        ("account_type", s("cash")),
        ("trade_date", s("20260914")),
        ("generated_at", s("2026-09-11T23:30:00")),
        ("nav_estimate", n(1000000.0)),
        (
            "target_positions",
            serde_json::Value::Array(vec![obj(vec![
                ("symbol", s("511010.SS")),
                ("target_weight", n(0.5)),
                ("side", s("auto")),
            ])]),
        ),
        ("total_target_weight", n(0.5)),
    ]);
    assert_eq!(canonical_sha1(&payload), "3d4d77a043c87ab594b431aa73c5b8f6e7532528");
}

#[test]
fn canonical_sha1_with_blocked_fields() {
    let payload = obj(vec![
        ("version", serde_json::Value::from(1)),
        ("signal_id", s("t2")),
        ("account_type", s("cash")),
        ("trade_date", s("20260918")),
        ("generated_at", s("2026-09-17T23:30:00")),
        ("nav_estimate", n(5000000.0)),
        ("execute_window", obj(vec![("start", s("09:35")), ("end", s("10:30"))])),
        (
            "deferred_execute_window",
            obj(vec![("start", s("10:35")), ("end", s("11:30"))]),
        ),
        (
            "target_positions",
            serde_json::Value::Array(vec![
                obj(vec![
                    ("symbol", s("511010.SS")),
                    ("target_weight", n(0.1214)),
                    ("side", s("auto")),
                ]),
                obj(vec![
                    ("symbol", s("513100.SS")),
                    ("target_weight", n(0.1214)),
                    ("side", s("auto")),
                    ("blocked_side", s("buy")),
                    ("premium_pct", n(13.6)),
                ]),
            ]),
        ),
        ("total_target_weight", n(0.2428)),
    ]);
    assert_eq!(canonical_sha1(&payload), "61e52b7e48baa3bb0ce6b7549e5313acefdc13b8");
}

#[test]
fn sha1_hex_known_digests() {
    assert_eq!(sha1_hex(b""), "da39a3ee5e6b4b0d3255bfef95601890afd80709");
    assert_eq!(sha1_hex(b"abc"), "a9993e364706816aba3e25717850c26c9cd0d89d");
}

#[test]
fn symbol_mapping_sh_to_ss() {
    assert_eq!(to_ptrade_symbol("511880.SH"), "511880.SS");
    assert_eq!(to_ptrade_symbol("600519.SH"), "600519.SS");
    assert_eq!(to_ptrade_symbol("159915.SZ"), "159915.SZ");
    assert_eq!(to_ptrade_symbol("000001.SZ"), "000001.SZ");
}

#[test]
fn combo_materialization_freshness_gate_branches() {
    let d = date(2026, 9, 21);
    let mat_at = utc_micros(2026, 9, 21, 14, 11, 25);
    let backfill_at = utc_micros(2026, 9, 21, 14, 35, 33);

    let err = verify_combo_materialization_freshness((0, None), Some(backfill_at), "c1", d).unwrap_err();
    assert!(err.contains("无物化行"), "{}", err);
    assert_eq!(err, "combo c1 截面日 2026-09-21 无物化行(夜间链物化未覆盖), 拒绝导出");

    let err = verify_combo_materialization_freshness((5919, Some(mat_at)), None, "c1", d).unwrap_err();
    assert!(err.contains("夜间链未跑"), "{}", err);

    let err =
        verify_combo_materialization_freshness((5919, Some(mat_at)), Some(backfill_at), "c1", d)
            .unwrap_err();
    assert!(err.contains("旧因子物化"), "{}", err);
    assert_eq!(
        err,
        "combo c1 截面 2026-09-21 行写入(2026-09-21 14:11)早于因子回填完成(14:35)=旧因子物化, 拒绝导出"
    );

    let fixed_mat = utc_micros(2026, 9, 21, 14, 36, 10);
    assert!(verify_combo_materialization_freshness((5919, Some(fixed_mat)), Some(backfill_at), "c1", d)
        .is_ok());
}

#[test]
fn combo_materialization_freshness_equal_boundary_rejects() {
    let t = utc_micros(2026, 9, 21, 14, 30, 0);
    let err = verify_combo_materialization_freshness((10, Some(t)), Some(t), "zzz_test_combo", date(2026, 9, 21))
        .map(|_| ())
        .unwrap_err();
    assert!(err.contains("旧因子物化"), "{err}");
}

#[test]
fn check_channel_missing_disabled_and_enabled_branches() {
    let err = check_channel("acct1", None).unwrap_err();
    assert_eq!(err, "账户 acct1 无 ptrade_channel_config 配置(未配通道目录,拒绝推送防误发)");
    let off = PtradeChannel {
        channel_name: "sim".to_string(),
        scp_target: "host:/dir".to_string(),
        enabled: false,
    };
    assert_eq!(check_channel("acct1", Some(off)).unwrap_err(), "通道 acct1 已停用(enabled=false)");
    let on = PtradeChannel {
        channel_name: "live".to_string(),
        scp_target: "host:/live".to_string(),
        enabled: true,
    };
    let c = check_channel("acct1", Some(on)).unwrap();
    assert_eq!(c.channel_name, "live");
    assert_eq!(c.scp_target, "host:/live");
}

#[test]
fn export_accounts_prefers_array_then_single() {
    assert_eq!(
        export_accounts(
            Some(vec![Some("a".to_string()), None, Some("b".to_string())]),
            Some("c".to_string())
        ),
        vec!["a".to_string(), "b".to_string()]
    );
    assert_eq!(export_accounts(None, Some("c".to_string())), vec!["c".to_string()]);
    assert!(export_accounts(None, None).is_empty());
}

#[test]
fn signal_names_and_fields() {
    assert_eq!(signal_id("v24", date(2026, 9, 22)), "v24_20260922_001");
    assert_eq!(signal_file_name(date(2026, 1, 5)), "signal_20260105_001.json");
    assert_eq!(account_type(true), "margin");
    assert_eq!(account_type(false), "cash");
    assert_eq!(blocked_side(true, true), Some("buy"));
    assert_eq!(blocked_side(false, true), Some("sell"));
    assert_eq!(blocked_side(false, false), None);
}

#[test]
fn closed_day_pass_needs_night_chain_rows() {
    let night = utc_micros(2026, 9, 24, 13, 0, 0);
    assert!(closed_day_pass(false, Some(night), Some(night + 1)));
    assert!(closed_day_pass(false, Some(night), Some(night)));
    assert!(!closed_day_pass(false, Some(night), Some(night - 1)));
    assert!(!closed_day_pass(true, Some(night), Some(night + 1)));
    assert!(!closed_day_pass(false, None, Some(night)));
    assert!(!closed_day_pass(false, Some(night), None));
}

#[test]
fn report_symbols_map_back_ss_to_sh() {
    assert_eq!(from_ptrade_symbol("511880.SS"), "511880.SH");
    assert_eq!(from_ptrade_symbol("159915.SZ"), "159915.SZ");
    for s in ["511880.SH", "159915.SZ", "600519.SH", "X"] {
        assert_eq!(from_ptrade_symbol(&to_ptrade_symbol(s)), s);
    }
}
