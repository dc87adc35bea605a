use quant_api::alerts::quality_alert_text;
use quant_api::mail::mailbox_credentials;

#[test]
fn quality_alert_lists_gaps() {
    assert_eq!(quality_alert_text(&vec![]), None);
    assert_eq!(
        quality_alert_text(&vec!["a: x".to_string(), "b: y".to_string()]),
        Some("## ⚠️ 数据质量告警\n\n发现 2 个数据缺口:\n- a: x\n- b: y\n\n请检查数据同步状态。".to_string())
    );
}

#[test]
fn mailbox_credentials_need_user_and_password() {
    assert_eq!(
        mailbox_credentials("sim", Some("u".to_string()), Some("p".to_string())),
        Ok(("u".to_string(), "p".to_string()))
    );
    let err = "通道[live] 未配置 imap_user/imap_pwd, 跳过拉取(在 ptrade_channel_config 配置后启用)".to_string();
    assert_eq!(mailbox_credentials("live", None, Some("p".to_string())), Err(err.clone()));
    assert_eq!(mailbox_credentials("live", Some("u".to_string()), None), Err(err));
}
