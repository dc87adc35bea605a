use quant_api::ownership::{owner_check, owner_label, write_denial, OwnerCheck, StrategyWrite};

#[test]
fn only_the_owner_may_write() {
    assert_eq!(owner_check(Some("u1"), "u1"), OwnerCheck::Allowed);
    assert_eq!(owner_check(Some("u2"), "u1"), OwnerCheck::Forbidden);
    assert_eq!(owner_check(None, "u1"), OwnerCheck::NotFound);
}

#[test]
fn write_denial_codes_and_messages() {
    assert_eq!(write_denial(OwnerCheck::Allowed, StrategyWrite::Update), None);
    assert_eq!(
        write_denial(OwnerCheck::Forbidden, StrategyWrite::Update),
        Some((403, "只能修改自己的策略".to_string()))
    );
    assert_eq!(
        write_denial(OwnerCheck::Forbidden, StrategyWrite::Delete),
        Some((403, "只能删除自己的策略".to_string()))
    );
    assert_eq!(
        write_denial(OwnerCheck::NotFound, StrategyWrite::Delete),
        Some((404, "策略不存在".to_string()))
    );
}

#[test]
fn owner_label_me_or_id() {
    assert_eq!(owner_label("u1", "u1"), "me");
    assert_eq!(owner_label("u2", "u1"), "u2");
}
