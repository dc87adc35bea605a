//! The date rules around model training and factor runs: when the prediction
//! model is retrained, when its input data counts as ready, and the date
//! windows and identifiers that the training and run requests carry.
use vstd::prelude::*;
use vstd::string::*;
use crate::calendar::{
    CivilDate, compact_date_text, compact_text, day_number, days_between, shift_in_range,
    shifted_in_range,
};

verus! {

/// Days after the latest training before the model is trained again.
pub const RETRAIN_AFTER_DAYS: i64 = 60;

/// Days that a prediction set covers after its start.
pub const PREDICTION_HORIZON_DAYS: i64 = 63;

/// The model is retrained when it was never trained, or when the latest
/// training ended `RETRAIN_AFTER_DAYS` days or more before `today`.
pub open spec fn training_due_spec(today: CivilDate, last_training: Option<CivilDate>) -> bool {
    match last_training {
        Some(t) => day_number(today) - day_number(t) >= RETRAIN_AFTER_DAYS,
        None => true,
    }
}

pub fn training_due(today: CivilDate, last_training: Option<CivilDate>) -> (r: bool)
    requires
        today.wf(),
        last_training matches Some(t) ==> t.wf(),
    ensures
        r == training_due_spec(today, last_training),
{
    match last_training {
        Some(t) => days_between(today, t) >= RETRAIN_AFTER_DAYS,
        None => true,
    }
}

/// A latest date is recent when it is at most two days before `today`.
pub open spec fn recent_within_two_days(latest: Option<CivilDate>, today: CivilDate) -> bool {
    match latest {
        Some(d) => day_number(d) >= day_number(today) - 2,
        None => false,
    }
}

/// The adjustment factors are monthly, so they count as ready when their
/// latest date is less than `RETRAIN_AFTER_DAYS` days old.
pub open spec fn adjustment_ready(latest: Option<CivilDate>, today: CivilDate) -> bool {
    match latest {
        Some(d) => day_number(today) - day_number(d) < RETRAIN_AFTER_DAYS,
        None => false,
    }
}

/// The training inputs are ready when the daily bars and the strategy's factor
/// values reach within two days of `today` and the adjustment factors are
/// fresh. Each argument is the latest date found, `None` when none was.
pub fn training_dependencies_ready(
    today: CivilDate,
    daily_max: Option<CivilDate>,
    adj_max: Option<CivilDate>,
    factor_max: Option<CivilDate>,
) -> (r: bool)
    requires
        today.wf(),
        daily_max matches Some(d) ==> d.wf(),
        adj_max matches Some(d) ==> d.wf(),
        factor_max matches Some(d) ==> d.wf(),
    ensures
        r == (recent_within_two_days(daily_max, today) && adjustment_ready(adj_max, today)
            && recent_within_two_days(factor_max, today)),
{
    let daily_ok = match daily_max {
        Some(d) => days_between(d, today) >= -2,
        None => false,
    };
    let adj_ok = match adj_max {
        Some(d) => days_between(today, d) < RETRAIN_AFTER_DAYS,
        None => false,
    };
    let factor_ok = match factor_max {
        Some(d) => days_between(d, today) >= -2,
        None => false,
    };
    daily_ok && adj_ok && factor_ok
}

/// The `%Y%m%d` window `[date - days, date]` that a factor run, a backfill or
/// an evaluation covers (a negative `days` puts the start after `date`).
pub fn lookback_window(date: CivilDate, days: i64) -> (r: (String, String))
    requires
        date.wf(),
        -1_000_000_000 <= days <= 1_000_000_000,
        shifted_in_range(date, -days),
    ensures
        exists|s: CivilDate| s.wf() && day_number(s) == day_number(date) - days && r.0@ == compact_text(s),
        r.1@ == compact_text(date),
{
    let s = shift_in_range(date, -days);
    (compact_date_text(s), compact_date_text(date))
}

/// The `%Y%m%d` start and end of the predictions a training run is asked for:
/// from `date` to `PREDICTION_HORIZON_DAYS` days after it.
pub fn prediction_window(date: CivilDate) -> (r: (String, String))
    requires
        date.wf(),
        shifted_in_range(date, PREDICTION_HORIZON_DAYS as int),
    ensures
        r.0@ == compact_text(date),
        exists|e: CivilDate| e.wf() && day_number(e) == day_number(date) + PREDICTION_HORIZON_DAYS
            && r.1@ == compact_text(e),
{
    let e = shift_in_range(date, PREDICTION_HORIZON_DAYS);
    (compact_date_text(date), compact_date_text(e))
}

/// The identifier of the full-universe prediction set rebuilt on `today`:
/// `pred-full-1.0.0-nlq-wf-{start}-{end}` over the prediction window.
pub fn full_universe_prediction_set_id(today: CivilDate) -> (r: String)
    requires
        today.wf(),
        shifted_in_range(today, PREDICTION_HORIZON_DAYS as int),
    ensures
        exists|e: CivilDate| e.wf() && day_number(e) == day_number(today) + PREDICTION_HORIZON_DAYS
            && r@ == "pred-full-1.0.0-nlq-wf-"@ + compact_text(today) + "-"@ + compact_text(e),
{
    let (start, end) = prediction_window(today);
    let mut id = String::from_str("pred-full-1.0.0-nlq-wf-");
    id.append(start.as_str());
    id.append("-");
    id.append(end.as_str());
    id
}

} // verus!
