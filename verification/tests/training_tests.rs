use quant_api::calendar::CivilDate;
use quant_api::training::{
    full_universe_prediction_set_id, lookback_window, prediction_window,
    training_dependencies_ready, training_due,
};

fn date(year: i32, month: u32, day: u32) -> CivilDate {
    CivilDate { year, month, day }
}

#[test]
fn training_due_after_sixty_days() {
    let today = date(2026, 9, 21);
    assert!(training_due(today, None));
    assert!(!training_due(today, Some(date(2026, 7, 24))));
    assert!(training_due(today, Some(date(2026, 7, 23))));
    assert!(training_due(today, Some(date(2025, 1, 1))));
}

#[test]
fn training_dependencies_fresh_missing_and_stale() {
    let today = date(2026, 9, 21);
    let fresh = Some(date(2026, 9, 19));
    assert!(training_dependencies_ready(today, fresh, Some(date(2026, 8, 1)), Some(today)));
    assert!(!training_dependencies_ready(today, Some(date(2026, 9, 18)), Some(date(2026, 8, 1)), fresh));
    assert!(!training_dependencies_ready(today, fresh, Some(date(2026, 7, 23)), fresh));
    assert!(!training_dependencies_ready(today, fresh, None, fresh));
    assert!(!training_dependencies_ready(today, fresh, Some(date(2026, 8, 1)), None));
}

#[test]
fn date_windows_of_requests() {
    assert_eq!(
        lookback_window(date(2026, 9, 21), 180),
        ("20260325".to_string(), "20260921".to_string())
    );
    assert_eq!(
        lookback_window(date(2026, 9, 21), 190),
        ("20260315".to_string(), "20260921".to_string())
    );
    assert_eq!(
        prediction_window(date(2026, 9, 21)),
        ("20260921".to_string(), "20261123".to_string())
    );
    assert_eq!(
        full_universe_prediction_set_id(date(2026, 12, 1)),
        "pred-full-1.0.0-nlq-wf-20261201-20270202"
    );
}
