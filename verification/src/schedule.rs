//! The built-in scheduler's rules: CRON field handling, the daily windows, the
//! once-per-day state of the intraday tick, the scheduled-task dispatch table,
//! the task-order audit and the market-level freshness requests.
use vstd::prelude::*;
use vstd::string::*;
use crate::calendar::{
    CivilDate, civil_succ, compact_date_text, compact_text, date_before, day_number, next_day,
    same_date, shift_in_range, shifted_in_range,
};
use crate::text::{
    good_tokens, is_ws, joined, lemma_joined_cons, lemma_ws_tokens_good, lemma_ws_tokens_joined,
    no_ws, opt_items, opt_str, parse_u32, parse_u32_spec, split_whitespace, str_eq, trim, trimmed,
    ws_tokens,
};

verus! {

// ───────────────────────── CRON fields ─────────────────────────

/// `"CRON 表达式 '" + expr + tail`: the prefix every CRON error message shares.
pub open spec fn cron_msg(expr: Seq<char>, tail: Seq<char>) -> Seq<char> {
    "CRON 表达式 '"@ + expr + tail
}

/// The time of day, in minutes after midnight, that a CRON expression fires at:
/// 5 fields read minute and hour from fields 0 and 1, 6 or 7 fields from 1 and 2;
/// both must be fixed numbers, minute at most 59 and hour at most 23.
pub open spec fn task_time_spec(expr: Seq<char>) -> Result<u32, Seq<char>> {
    let t = ws_tokens(expr);
    if !(t.len() == 5 || t.len() == 6 || t.len() == 7) {
        Err(cron_msg(expr, "' 字段数不是 5/6/7"@))
    } else {
        let mi: int = if t.len() == 5 { 0 } else { 1 };
        let hi: int = mi + 1;
        match parse_u32_spec(t[mi]) {
            None => Err(cron_msg(expr, "' 分字段不是固定数字"@)),
            Some(m) => match parse_u32_spec(t[hi]) {
                None => Err(cron_msg(expr, "' 时字段不是固定数字"@)),
                Some(h) => if m > 59 || h > 23 {
                    Err(cron_msg(expr, "' 时/分超出范围"@))
                } else {
                    Ok((h * 60 + m) as u32)
                },
            },
        }
    }
}

/// The same expression as the `cron` crate reads it: a 5-field expression gets a
/// leading seconds field `0`; any expression has its white space collapsed to
/// single spaces.
pub open spec fn normalized_cron(expr: Seq<char>) -> Seq<char> {
    let t = ws_tokens(expr);
    if t.len() == 5 {
        "0 "@ + joined(t, " "@)
    } else {
        joined(t, " "@)
    }
}

fn cron_error(expr: &str, tail: &str) -> (r: String)
    ensures
        r@ == cron_msg(expr@, tail@),
{
    let mut s = String::from_str("CRON 表达式 '");
    s.append(expr);
    s.append(tail);
    s
}

/// Rewrites a CRON expression into the 6-field form the `cron` crate parses.
pub fn normalize_cron_expr(expr: &str) -> (r: String)
    ensures
        r@ == normalized_cron(expr@),
{
    let parts = split_whitespace(expr);
    proof {
        assert(parts@.map_values(|t: String| t@) =~= ws_tokens(expr@));
    }
    let j = join_tokens(&parts);
    if parts.len() == 5 {
        let mut s = String::from_str("0 ");
        s.append(j.as_str());
        s
    } else {
        j
    }
}

fn join_tokens(parts: &Vec<String>) -> (r: String)
    ensures
        r@ == joined(parts@.map_values(|t: String| t@), " "@),
{
    crate::text::join(parts, " ")
}

/// The minute of the day a scheduled task's CRON expression fires at.
pub fn scheduled_task_time_minutes(expr: &str) -> (r: Result<u32, String>)
    ensures
        match r {
            Ok(v) => task_time_spec(expr@) == Ok::<u32, Seq<char>>(v),
            Err(e) => task_time_spec(expr@) == Err::<u32, Seq<char>>(e@),
        },
{
    let parts = split_whitespace(expr);
    proof {
        assert(parts@.map_values(|t: String| t@) =~= ws_tokens(expr@));
    }
    let k = parts.len();
    if !(k == 5 || k == 6 || k == 7) {
        return Err(cron_error(expr, "' 字段数不是 5/6/7"));
    }
    let mi: usize = if k == 5 { 0 } else { 1 };
    let hi: usize = mi + 1;
    let minute = match parse_u32(parts[mi].as_str()) {
        Some(m) => m,
        None => {
            return Err(cron_error(expr, "' 分字段不是固定数字"));
        },
    };
    let hour = match parse_u32(parts[hi].as_str()) {
        Some(h) => h,
        None => {
            return Err(cron_error(expr, "' 时字段不是固定数字"));
        },
    };
    if minute > 59 || hour > 23 {
        return Err(cron_error(expr, "' 时/分超出范围"));
    }
    Ok(hour * 60 + minute)
}

/// The tokens of the normalized form: a 5-field expression gains a leading `0`.
pub open spec fn cron_tokens(expr: Seq<char>) -> Seq<Seq<char>> {
    let t = ws_tokens(expr);
    if t.len() == 5 {
        seq![seq!['0']] + t
    } else {
        t
    }
}

proof fn lemma_normalized_is_joined(expr: Seq<char>)
    ensures
        normalized_cron(expr) == joined(cron_tokens(expr), " "@),
        good_tokens(cron_tokens(expr)),
{
    let t = ws_tokens(expr);
    lemma_ws_tokens_good(expr);
    if t.len() == 5 {
        let u = seq![seq!['0']] + t;
        lemma_joined_cons(seq!['0'], t, " "@);
        reveal_strlit("0 ");
        reveal_strlit(" ");
        assert("0 "@ + joined(t, " "@) =~= seq!['0'] + " "@ + joined(t, " "@));
        assert forall|i: int| 0 <= i < u.len() implies (#[trigger] u[i]).len() > 0 && no_ws(u[i]) by {
            if i == 0 {
                assert(u[0] == seq!['0']);
                assert(!is_ws('0'));
                assert forall|j: int| 0 <= j < u[0].len() implies !is_ws(#[trigger] u[0][j]) by {
                    assert(u[0][j] == '0');
                }
            } else {
                assert(u[i] == t[i - 1]);
            }
        }
    }
}

proof fn lemma_normalized_tokens(expr: Seq<char>)
    ensures
        ws_tokens(normalized_cron(expr)) == cron_tokens(expr),
{
    lemma_normalized_is_joined(expr);
    lemma_ws_tokens_joined(cron_tokens(expr));
}

/// Law: normalizing a CRON expression a second time changes nothing.
pub proof fn law_normalize_cron_idempotent(expr: Seq<char>)
    ensures
        normalized_cron(normalized_cron(expr)) == normalized_cron(expr),
{
    lemma_normalized_tokens(expr);
    lemma_normalized_is_joined(expr);
}

/// Law: the scheduler, which runs the normalized expression, and the task
/// audit, which reads the stored one, see the same time of day; an expression
/// the audit cannot read stays unreadable after normalizing.
pub proof fn law_normalized_cron_same_time(expr: Seq<char>)
    ensures
        task_time_spec(expr) matches Ok(v) ==> task_time_spec(normalized_cron(expr)) == Ok::<
            u32,
            Seq<char>,
        >(v),
        task_time_spec(expr) is Err ==> task_time_spec(normalized_cron(expr)) is Err,
{
    lemma_normalized_tokens(expr);
    let t = ws_tokens(expr);
    if t.len() == 5 {
        let u = cron_tokens(expr);
        assert(u.len() == 6);
        assert(u[1] == t[0]);
        assert(u[2] == t[1]);
    }
}

// ───────────────────────── daily windows ─────────────────────────

/// The end-of-day sync window: 21:30 to 21:39.
pub open spec fn eod_window(hour: u32, minute: u32) -> bool {
    hour == 21 && 30 <= minute < 40
}

/// The rebalance window opened at `reb_hour`:35; for a morning hour it runs on
/// until 30 minutes past the following hour, otherwise to the end of the hour.
pub open spec fn rebalance_window(hour: u32, minute: u32, reb_hour: u32) -> bool {
    if reb_hour < 12 {
        (hour == reb_hour && minute >= 35) || (hour == reb_hour + 1 && minute <= 30)
    } else {
        hour == reb_hour && minute >= 35
    }
}

/// The T+1 catch-up window: 09:00 to 09:04.
pub open spec fn t1_window(hour: u32, minute: u32) -> bool {
    hour == 9 && minute < 5
}

/// The clean-up window: 16:00 to 16:29.
pub open spec fn cleanup_window(hour: u32, minute: u32) -> bool {
    hour == 16 && minute < 30
}

/// Law: the rebalance window opens at `reb_hour`:35 and not before; a morning
/// window (hour before noon) runs on to half past the next hour, an afternoon
/// one ends with its hour; no other hour is in it.
pub proof fn law_rebalance_window_extent(hour: u32, minute: u32, reb_hour: u32)
    ensures
        minute >= 35 ==> rebalance_window(reb_hour, minute, reb_hour),
        minute < 35 ==> !rebalance_window(reb_hour, minute, reb_hour),
        reb_hour < 12 && minute <= 30 ==> rebalance_window((reb_hour + 1) as u32, minute, reb_hour),
        reb_hour < 12 && minute > 30 ==> !rebalance_window((reb_hour + 1) as u32, minute, reb_hour),
        12 <= reb_hour < 24 ==> !rebalance_window((reb_hour + 1) as u32, minute, reb_hour),
        hour != reb_hour && hour != reb_hour + 1 ==> !rebalance_window(hour, minute, reb_hour),
{
}

/// Whether the end-of-day sync runs at this time of day.
pub fn is_eod_sync_window(hour: u32, minute: u32) -> (r: bool)
    ensures
        r == eod_window(hour, minute),
{
    hour == 21 && 30 <= minute && minute < 40
}

/// Whether the rebalance runs at this time of day, given the configured hour.
pub fn is_rebalance_window(hour: u32, minute: u32, reb_hour: u32) -> (r: bool)
    ensures
        r == rebalance_window(hour, minute, reb_hour),
{
    if reb_hour < 12 {
        (hour == reb_hour && minute >= 35) || (hour == reb_hour + 1 && minute <= 30)
    } else {
        hour == reb_hour && minute >= 35
    }
}

/// Whether the quarterly walk-forward check runs: on a trading day of a month
/// that opens a quarter, between 21:00 and 21:59.
pub fn is_wfa_window(month: u32, is_open: Option<bool>, hour: u32) -> (r: bool)
    ensures
        r == ((month == 1 || month == 4 || month == 7 || month == 10) && is_open == Some(true)
            && hour == 21),
{
    let quarter_start = month == 1 || month == 4 || month == 7 || month == 10;
    let open = match is_open {
        Some(b) => b,
        None => false,
    };
    quarter_start && open && 21 <= hour && hour < 22
}

// ───────────────────────── once-per-day tick state ─────────────────────────

/// What the intraday tick remembers about the current day.
#[derive(Debug, Clone, Copy, PartialEq, Eq, Structural)]
pub struct DailyState {
    pub date: Option<CivilDate>,
    pub traded_today: bool,
    pub eod_synced_today: bool,
    pub yesterday_synced: bool,
    pub cleanup_done: bool,
    pub report_pushed: bool,
}

impl DailyState {
    /// A state with nothing done yet on `date`.
    pub open spec fn fresh(date: Option<CivilDate>) -> DailyState {
        DailyState {
            date,
            traded_today: false,
            eod_synced_today: false,
            yesterday_synced: false,
            cleanup_done: false,
            report_pushed: false,
        }
    }

    /// The state carried into `today`: unchanged on the same day, fresh on a new one.
    pub open spec fn rolled(self, today: CivilDate) -> DailyState {
        if self.date == Some(today) {
            self
        } else {
            DailyState::fresh(Some(today))
        }
    }

    /// Starting the rebalance when it is due and not yet started today.
    pub open spec fn rebalance_started(self, due: bool) -> (DailyState, bool) {
        if due && !self.traded_today {
            (DailyState { traded_today: true, ..self }, true)
        } else {
            (self, false)
        }
    }

    /// Starting the end-of-day sync when it is due and not yet started today.
    pub open spec fn eod_started(self, due: bool) -> (DailyState, bool) {
        if due && !self.eod_synced_today {
            (DailyState { eod_synced_today: true, ..self }, true)
        } else {
            (self, false)
        }
    }

    /// Starting the T+1 catch-up when it is due and not yet started today.
    pub open spec fn t1_started(self, due: bool) -> (DailyState, bool) {
        if due && !self.yesterday_synced {
            (DailyState { yesterday_synced: true, ..self }, true)
        } else {
            (self, false)
        }
    }

    /// The state before the first tick.
    pub fn new() -> (s: DailyState)
        ensures
            s == DailyState::fresh(None),
    {
        DailyState {
            date: None,
            traded_today: false,
            eod_synced_today: false,
            yesterday_synced: false,
            cleanup_done: false,
            report_pushed: false,
        }
    }

    /// Moves the state to `today`, forgetting yesterday's flags on a new day.
    pub fn roll_to(&mut self, today: CivilDate)
        ensures
            *final(self) == old(self).rolled(today),
    {
        let same = match self.date {
            Some(d) => same_date(&d, &today),
            None => false,
        };
        if !same {
            *self = DailyState {
                date: Some(today),
                traded_today: false,
                eod_synced_today: false,
                yesterday_synced: false,
                cleanup_done: false,
                report_pushed: false,
            };
        }
    }

    /// Whether to rebalance now (a trading day inside the window, not yet done
    /// today); marks the rebalance as started when it returns `true`.
    pub fn begin_rebalance(&mut self, is_trade: bool, hour: u32, minute: u32, reb_hour: u32) -> (run: bool)
        ensures
            (*final(self), run) == old(self).rebalance_started(
                is_trade && rebalance_window(hour, minute, reb_hour),
            ),
    {
        let due = is_trade && is_rebalance_window(hour, minute, reb_hour);
        if due && !self.traded_today {
            self.traded_today = true;
            true
        } else {
            false
        }
    }

    /// The pre-trade data check refused the rebalance: it may run again later today.
    pub fn on_rebalance_rejected(&mut self)
        ensures
            *final(self) == (DailyState { traded_today: false, ..*old(self) }),
    {
        self.traded_today = false;
    }

    /// Whether to run the end-of-day sync now; marks it as started when `true`.
    pub fn begin_eod_sync(&mut self, hour: u32, minute: u32) -> (run: bool)
        ensures
            (*final(self), run) == old(self).eod_started(eod_window(hour, minute)),
    {
        if is_eod_sync_window(hour, minute) && !self.eod_synced_today {
            self.eod_synced_today = true;
            true
        } else {
            false
        }
    }

    /// The end-of-day sync finished; on a trading day the daily report went with it.
    pub fn on_eod_synced(&mut self, is_trade: bool)
        ensures
            *final(self) == (DailyState {
                report_pushed: old(self).report_pushed || is_trade,
                ..*old(self)
            }),
    {
        if is_trade {
            self.report_pushed = true;
        }
    }

    /// Whether to run the T+1 catch-up now; marks it as started when `true`.
    pub fn begin_t1_sync(&mut self, hour: u32, minute: u32) -> (run: bool)
        ensures
            (*final(self), run) == old(self).t1_started(t1_window(hour, minute)),
    {
        if hour == 9 && minute < 5 && !self.yesterday_synced {
            self.yesterday_synced = true;
            true
        } else {
            false
        }
    }

    /// Whether the expired-backtest clean-up should be tried now.
    pub fn cleanup_due(&self, hour: u32, minute: u32) -> (r: bool)
        ensures
            r == (cleanup_window(hour, minute) && !self.cleanup_done),
    {
        hour == 16 && minute < 30 && !self.cleanup_done
    }

    /// The clean-up succeeded; it is not tried again today.
    pub fn on_cleanup_done(&mut self)
        ensures
            *final(self) == (DailyState { cleanup_done: true, ..*old(self) }),
    {
        self.cleanup_done = true;
    }
}

/// Law: on a new day every flag is cleared; on the same day nothing changes.
pub proof fn law_roll_resets_only_on_new_day(s: DailyState, today: CivilDate)
    ensures
        s.date != Some(today) ==> s.rolled(today) == DailyState::fresh(Some(today)),
        s.date == Some(today) ==> s.rolled(today) == s,
        s.rolled(today).rolled(today) == s.rolled(today),
{
}

/// Law: a new day makes every daily step due again, whatever ran the day before.
pub proof fn law_new_day_reenables_steps(s: DailyState, today: CivilDate)
    requires
        s.date != Some(today),
    ensures
        s.rolled(today).rebalance_started(true).1,
        s.rolled(today).eod_started(true).1,
        s.rolled(today).t1_started(true).1,
        !s.rolled(today).cleanup_done,
        !s.rolled(today).report_pushed,
{
}

/// Law: within one day the rebalance starts at most once, however often the
/// tick comes round, unless the pre-trade check rejects it in between.
pub proof fn law_rebalance_at_most_once_per_day(s: DailyState, today: CivilDate, due1: bool, due2: bool)
    ensures
        ({
            let (s1, r1) = s.rolled(today).rebalance_started(due1);
            let (_, r2) = s1.rolled(today).rebalance_started(due2);
            r1 ==> !r2
        }),
{
}

/// Law: after a rejection the rebalance starts again at the next due tick.
pub proof fn law_rejected_rebalance_retries(s: DailyState, today: CivilDate)
    ensures
        ({
            let (s1, _) = s.rolled(today).rebalance_started(true);
            let s2 = DailyState { traded_today: false, ..s1 };
            s2.rolled(today).rebalance_started(true).1
        }),
{
}

/// Law: the end-of-day sync and the T+1 catch-up each start at most once a day.
pub proof fn law_syncs_at_most_once_per_day(s: DailyState, today: CivilDate, d1: bool, d2: bool)
    ensures
        ({
            let (s1, r1) = s.rolled(today).eod_started(d1);
            let (_, r2) = s1.rolled(today).eod_started(d2);
            r1 ==> !r2
        }),
        ({
            let (s1, r1) = s.rolled(today).t1_started(d1);
            let (_, r2) = s1.rolled(today).t1_started(d2);
            r1 ==> !r2
        }),
{
}

/// The day the T+1 catch-up syncs: the latest open trade date before today,
/// or the day before today when the calendar has none.
pub fn t1_sync_date(last_open_before: Option<CivilDate>, today: CivilDate) -> (r: CivilDate)
    requires
        today.wf(),
        shifted_in_range(today, -1),
    ensures
        last_open_before matches Some(d) ==> r == d,
        last_open_before is None ==> r.wf() && day_number(r) == day_number(today) - 1,
{
    match last_open_before {
        Some(d) => d,
        None => shift_in_range(today, -1),
    }
}

// ───────────────────────── quarterly walk-forward ─────────────────────────

/// What the quarterly walk-forward check decides.
#[derive(Debug, Clone, Copy, PartialEq, Eq, Structural)]
pub enum WfaAction {
    /// Parameters for today's window already exist: nothing to do.
    AlreadyCovered,
    /// An experiment is running: only extract parameters from finished ones.
    ExtractWhileRunning,
    /// The last experiment finished this many days ago (under 30): extract only.
    ExtractRecent(i64),
    /// Start a new walk-forward experiment.
    Launch,
}

/// Decides the quarterly walk-forward step from the number of parameter rows
/// covering today, whether an experiment is running, and the age in days of the
/// last completed one.
pub fn wfa_action(existing: i64, running: bool, days_since_last: Option<i64>) -> (r: WfaAction)
    ensures
        existing > 0 ==> r == WfaAction::AlreadyCovered,
        existing <= 0 && running ==> r == WfaAction::ExtractWhileRunning,
        existing <= 0 && !running ==> r == (match days_since_last {
            Some(d) => if d < 30 { WfaAction::ExtractRecent(d) } else { WfaAction::Launch },
            None => WfaAction::Launch,
        }),
{
    if existing > 0 {
        return WfaAction::AlreadyCovered;
    }
    if running {
        return WfaAction::ExtractWhileRunning;
    }
    match days_since_last {
        Some(d) => if d < 30 {
            WfaAction::ExtractRecent(d)
        } else {
            WfaAction::Launch
        },
        None => WfaAction::Launch,
    }
}

// ───────────────────────── waiting and freshness ─────────────────────────

/// One step of waiting for the factor backfill tasks.
#[derive(Debug, Clone, Copy, PartialEq, Eq, Structural)]
pub enum BackfillWait {
    /// No task is pending any more.
    AllTerminal,
    /// The deadline passed with this many tasks still pending.
    TimedOut(i64),
    /// Sleep and poll again.
    Poll,
}

/// Decides a polling step from the number of pending backfill tasks and
/// whether the deadline has passed.
pub fn backfill_wait_step(pending: i64, deadline_passed: bool) -> (r: BackfillWait)
    ensures
        pending == 0 ==> r == BackfillWait::AllTerminal,
        pending != 0 && deadline_passed ==> r == BackfillWait::TimedOut(pending),
        pending != 0 && !deadline_passed ==> r == BackfillWait::Poll,
{
    if pending == 0 {
        BackfillWait::AllTerminal
    } else if deadline_passed {
        BackfillWait::TimedOut(pending)
    } else {
        BackfillWait::Poll
    }
}

/// How far data lags: `None` when fresh, otherwise the number of trading days it
/// lags (999 when there is no data at all). `gap` is the count of trading days
/// strictly between the latest data and today, `None` when there is no data.
pub fn freshness_lag(gap: Option<i64>, max_gap: i64) -> (r: Option<i64>)
    ensures
        gap is None ==> r == Some(999i64),
        gap matches Some(g) ==> r == (if g > max_gap { Some(g) } else { None }),
{
    match gap {
        Some(g) => if g > max_gap {
            Some(g)
        } else {
            None
        },
        None => Some(999),
    }
}

// ───────────────────────── scheduled task dispatch ─────────────────────────

/// The scheduled task types the dispatcher knows.
#[derive(Debug, Clone, Copy, PartialEq, Eq, Structural)]
pub enum TaskKind {
    DataQualityCheck,
    EquityCurveUpdate,
    MvoEquityCurveUpdate,
    FactorBackfill,
    NightlySignalPrep,
    PtradeSignalExport,
    PtradeReportFetch,
    NativePvIncrement,
    PitComboRefresh,
    RollingPitEval,
    MarketLevelSourceFreshness,
}

/// The dispatch arm for a `task_type` value of `scheduled_task_config`.
pub open spec fn task_kind_spec(t: Seq<char>) -> Option<TaskKind> {
    if t == "data_quality_check"@ {
        Some(TaskKind::DataQualityCheck)
    } else if t == "equity_curve_update"@ {
        Some(TaskKind::EquityCurveUpdate)
    } else if t == "mvo_equity_curve_update"@ {
        Some(TaskKind::MvoEquityCurveUpdate)
    } else if t == "factor_backfill"@ {
        Some(TaskKind::FactorBackfill)
    } else if t == "nightly_signal_prep"@ {
        Some(TaskKind::NightlySignalPrep)
    } else if t == "ptrade_signal_export"@ {
        Some(TaskKind::PtradeSignalExport)
    } else if t == "ptrade_report_fetch"@ {
        Some(TaskKind::PtradeReportFetch)
    } else if t == "native_pv_increment"@ {
        Some(TaskKind::NativePvIncrement)
    } else if t == "pit_combo_refresh"@ {
        Some(TaskKind::PitComboRefresh)
    } else if t == "rolling_pit_eval"@ {
        Some(TaskKind::RollingPitEval)
    } else if t == "market_level_source_freshness"@ {
        Some(TaskKind::MarketLevelSourceFreshness)
    } else {
        None
    }
}

/// Law: each name of the dispatch table selects its own arm.
pub proof fn law_task_kind_table()
    ensures
        task_kind_spec("data_quality_check"@) == Some(TaskKind::DataQualityCheck),
        task_kind_spec("equity_curve_update"@) == Some(TaskKind::EquityCurveUpdate),
        task_kind_spec("mvo_equity_curve_update"@) == Some(TaskKind::MvoEquityCurveUpdate),
        task_kind_spec("factor_backfill"@) == Some(TaskKind::FactorBackfill),
        task_kind_spec("nightly_signal_prep"@) == Some(TaskKind::NightlySignalPrep),
        task_kind_spec("ptrade_signal_export"@) == Some(TaskKind::PtradeSignalExport),
        task_kind_spec("ptrade_report_fetch"@) == Some(TaskKind::PtradeReportFetch),
        task_kind_spec("native_pv_increment"@) == Some(TaskKind::NativePvIncrement),
        task_kind_spec("pit_combo_refresh"@) == Some(TaskKind::PitComboRefresh),
        task_kind_spec("rolling_pit_eval"@) == Some(TaskKind::RollingPitEval),
        task_kind_spec("market_level_source_freshness"@) == Some(
            TaskKind::MarketLevelSourceFreshness,
        ),
{
    assert(task_kind_spec("data_quality_check"@) == Some(TaskKind::DataQualityCheck)) by {
        reveal_strlit("data_quality_check");
    }
    assert(task_kind_spec("equity_curve_update"@) == Some(TaskKind::EquityCurveUpdate)) by {
        reveal_strlit("equity_curve_update");
        reveal_strlit("data_quality_check");
        assert("equity_curve_update"@.len() != "data_quality_check"@.len());
    }
    assert(task_kind_spec("mvo_equity_curve_update"@) == Some(TaskKind::MvoEquityCurveUpdate)) by {
        reveal_strlit("mvo_equity_curve_update");
        reveal_strlit("data_quality_check");
        assert("mvo_equity_curve_update"@.len() != "data_quality_check"@.len());
        reveal_strlit("equity_curve_update");
        assert("mvo_equity_curve_update"@.len() != "equity_curve_update"@.len());
    }
    assert(task_kind_spec("factor_backfill"@) == Some(TaskKind::FactorBackfill)) by {
        reveal_strlit("factor_backfill");
        reveal_strlit("data_quality_check");
        assert("factor_backfill"@.len() != "data_quality_check"@.len());
        reveal_strlit("equity_curve_update");
        assert("factor_backfill"@.len() != "equity_curve_update"@.len());
        reveal_strlit("mvo_equity_curve_update");
        assert("factor_backfill"@.len() != "mvo_equity_curve_update"@.len());
    }
    assert(task_kind_spec("nightly_signal_prep"@) == Some(TaskKind::NightlySignalPrep)) by {
        reveal_strlit("nightly_signal_prep");
        reveal_strlit("data_quality_check");
        assert("nightly_signal_prep"@.len() != "data_quality_check"@.len());
        reveal_strlit("equity_curve_update");
        assert("nightly_signal_prep"@[0] != "equity_curve_update"@[0]);
        reveal_strlit("mvo_equity_curve_update");
        assert("nightly_signal_prep"@.len() != "mvo_equity_curve_update"@.len());
        reveal_strlit("factor_backfill");
        assert("nightly_signal_prep"@.len() != "factor_backfill"@.len());
    }
    assert(task_kind_spec("ptrade_signal_export"@) == Some(TaskKind::PtradeSignalExport)) by {
        reveal_strlit("ptrade_signal_export");
        reveal_strlit("data_quality_check");
        assert("ptrade_signal_export"@.len() != "data_quality_check"@.len());
        reveal_strlit("equity_curve_update");
        assert("ptrade_signal_export"@.len() != "equity_curve_update"@.len());
        reveal_strlit("mvo_equity_curve_update");
        assert("ptrade_signal_export"@.len() != "mvo_equity_curve_update"@.len());
        reveal_strlit("factor_backfill");
        assert("ptrade_signal_export"@.len() != "factor_backfill"@.len());
        reveal_strlit("nightly_signal_prep");
        assert("ptrade_signal_export"@.len() != "nightly_signal_prep"@.len());
    }
    assert(task_kind_spec("ptrade_report_fetch"@) == Some(TaskKind::PtradeReportFetch)) by {
        reveal_strlit("ptrade_report_fetch");
        reveal_strlit("data_quality_check");
        assert("ptrade_report_fetch"@.len() != "data_quality_check"@.len());
        reveal_strlit("equity_curve_update");
        assert("ptrade_report_fetch"@[0] != "equity_curve_update"@[0]);
        reveal_strlit("mvo_equity_curve_update");
        assert("ptrade_report_fetch"@.len() != "mvo_equity_curve_update"@.len());
        reveal_strlit("factor_backfill");
        assert("ptrade_report_fetch"@.len() != "factor_backfill"@.len());
        reveal_strlit("nightly_signal_prep");
        assert("ptrade_report_fetch"@[0] != "nightly_signal_prep"@[0]);
        reveal_strlit("ptrade_signal_export");
        assert("ptrade_report_fetch"@.len() != "ptrade_signal_export"@.len());
    }
    assert(task_kind_spec("native_pv_increment"@) == Some(TaskKind::NativePvIncrement)) by {
        reveal_strlit("native_pv_increment");
        reveal_strlit("data_quality_check");
        assert("native_pv_increment"@.len() != "data_quality_check"@.len());
        reveal_strlit("equity_curve_update");
        assert("native_pv_increment"@[0] != "equity_curve_update"@[0]);
        reveal_strlit("mvo_equity_curve_update");
        assert("native_pv_increment"@.len() != "mvo_equity_curve_update"@.len());
        reveal_strlit("factor_backfill");
        assert("native_pv_increment"@.len() != "factor_backfill"@.len());
        reveal_strlit("nightly_signal_prep");
        assert("native_pv_increment"@[1] != "nightly_signal_prep"@[1]);
        reveal_strlit("ptrade_signal_export");
        assert("native_pv_increment"@.len() != "ptrade_signal_export"@.len());
        reveal_strlit("ptrade_report_fetch");
        assert("native_pv_increment"@[0] != "ptrade_report_fetch"@[0]);
    }
    assert(task_kind_spec("pit_combo_refresh"@) == Some(TaskKind::PitComboRefresh)) by {
        reveal_strlit("pit_combo_refresh");
        reveal_strlit("data_quality_check");
        assert("pit_combo_refresh"@.len() != "data_quality_check"@.len());
        reveal_strlit("equity_curve_update");
        assert("pit_combo_refresh"@.len() != "equity_curve_update"@.len());
        reveal_strlit("mvo_equity_curve_update");
        assert("pit_combo_refresh"@.len() != "mvo_equity_curve_update"@.len());
        reveal_strlit("factor_backfill");
        assert("pit_combo_refresh"@.len() != "factor_backfill"@.len());
        reveal_strlit("nightly_signal_prep");
        assert("pit_combo_refresh"@.len() != "nightly_signal_prep"@.len());
        reveal_strlit("ptrade_signal_export");
        assert("pit_combo_refresh"@.len() != "ptrade_signal_export"@.len());
        reveal_strlit("ptrade_report_fetch");
        assert("pit_combo_refresh"@.len() != "ptrade_report_fetch"@.len());
        reveal_strlit("native_pv_increment");
        assert("pit_combo_refresh"@.len() != "native_pv_increment"@.len());
    }
    assert(task_kind_spec("rolling_pit_eval"@) == Some(TaskKind::RollingPitEval)) by {
        reveal_strlit("rolling_pit_eval");
        reveal_strlit("data_quality_check");
        assert("rolling_pit_eval"@.len() != "data_quality_check"@.len());
        reveal_strlit("equity_curve_update");
        assert("rolling_pit_eval"@.len() != "equity_curve_update"@.len());
        reveal_strlit("mvo_equity_curve_update");
        assert("rolling_pit_eval"@.len() != "mvo_equity_curve_update"@.len());
        reveal_strlit("factor_backfill");
        assert("rolling_pit_eval"@.len() != "factor_backfill"@.len());
        reveal_strlit("nightly_signal_prep");
        assert("rolling_pit_eval"@.len() != "nightly_signal_prep"@.len());
        reveal_strlit("ptrade_signal_export");
        assert("rolling_pit_eval"@.len() != "ptrade_signal_export"@.len());
        reveal_strlit("ptrade_report_fetch");
        assert("rolling_pit_eval"@.len() != "ptrade_report_fetch"@.len());
        reveal_strlit("native_pv_increment");
        assert("rolling_pit_eval"@.len() != "native_pv_increment"@.len());
        reveal_strlit("pit_combo_refresh");
        assert("rolling_pit_eval"@.len() != "pit_combo_refresh"@.len());
    }
    assert(task_kind_spec("market_level_source_freshness"@) == Some(TaskKind::MarketLevelSourceFreshness)) by {
        reveal_strlit("market_level_source_freshness");
        reveal_strlit("data_quality_check");
        assert("market_level_source_freshness"@.len() != "data_quality_check"@.len());
        reveal_strlit("equity_curve_update");
        assert("market_level_source_freshness"@.len() != "equity_curve_update"@.len());
        reveal_strlit("mvo_equity_curve_update");
        assert("market_level_source_freshness"@.len() != "mvo_equity_curve_update"@.len());
        reveal_strlit("factor_backfill");
        assert("market_level_source_freshness"@.len() != "factor_backfill"@.len());
        reveal_strlit("nightly_signal_prep");
        assert("market_level_source_freshness"@.len() != "nightly_signal_prep"@.len());
        reveal_strlit("ptrade_signal_export");
        assert("market_level_source_freshness"@.len() != "ptrade_signal_export"@.len());
        reveal_strlit("ptrade_report_fetch");
        assert("market_level_source_freshness"@.len() != "ptrade_report_fetch"@.len());
        reveal_strlit("native_pv_increment");
        assert("market_level_source_freshness"@.len() != "native_pv_increment"@.len());
        reveal_strlit("pit_combo_refresh");
        assert("market_level_source_freshness"@.len() != "pit_combo_refresh"@.len());
        reveal_strlit("rolling_pit_eval");
        assert("market_level_source_freshness"@.len() != "rolling_pit_eval"@.len());
    }
}

/// Law: two task types that select an arm select the same arm only when they
/// are the same name, so no two dispatch names share an arm.
pub proof fn law_task_kind_distinct(a: Seq<char>, b: Seq<char>)
    ensures
        task_kind_spec(a) is Some && task_kind_spec(a) == task_kind_spec(b) ==> a == b,
{
}

/// Finds the dispatch arm for a task type; `None` for a type this build does not know.
pub fn task_kind(task_type: &str) -> (r: Option<TaskKind>)
    ensures
        r == task_kind_spec(task_type@),
{
    if str_eq(task_type, "data_quality_check") {
        Some(TaskKind::DataQualityCheck)
    } else if str_eq(task_type, "equity_curve_update") {
        Some(TaskKind::EquityCurveUpdate)
    } else if str_eq(task_type, "mvo_equity_curve_update") {
        Some(TaskKind::MvoEquityCurveUpdate)
    } else if str_eq(task_type, "factor_backfill") {
        Some(TaskKind::FactorBackfill)
    } else if str_eq(task_type, "nightly_signal_prep") {
        Some(TaskKind::NightlySignalPrep)
    } else if str_eq(task_type, "ptrade_signal_export") {
        Some(TaskKind::PtradeSignalExport)
    } else if str_eq(task_type, "ptrade_report_fetch") {
        Some(TaskKind::PtradeReportFetch)
    } else if str_eq(task_type, "native_pv_increment") {
        Some(TaskKind::NativePvIncrement)
    } else if str_eq(task_type, "pit_combo_refresh") {
        Some(TaskKind::PitComboRefresh)
    } else if str_eq(task_type, "rolling_pit_eval") {
        Some(TaskKind::RollingPitEval)
    } else if str_eq(task_type, "market_level_source_freshness") {
        Some(TaskKind::MarketLevelSourceFreshness)
    } else {
        None
    }
}

/// The `last_status` recorded for a run: `"success"` when a dispatch arm ran,
/// `"unhandled"` when the type had none.
pub fn run_status(kind: Option<TaskKind>) -> (r: &'static str)
    ensures
        r@ == (if kind is Some { "success"@ } else { "unhandled"@ }),
{
    match kind {
        Some(_) => "success",
        None => "unhandled",
    }
}

/// One day in microseconds.
pub const DAY_MICROS: i64 = 86_400_000_000;

/// A parsed CRON schedule of the `cron` crate.
#[verifier::external_type_specification]
#[verifier::external_body]
pub struct ExCronSchedule(cron::Schedule);

/// What `cron::Schedule::from_str` makes of an expression: accepted, or
/// rejected with the text of its error. It depends on the text alone.
pub uninterp spec fn cron_parse_outcome(expr: Seq<char>) -> Result<(), Seq<char>>;

/// Calls `cron::Schedule::from_str` (through `str::parse`) on `normalized`;
/// a rejection hands back the error's text. Which expressions the crate
/// accepts is named, not stated.
#[verifier::external_body]
fn parse_cron(normalized: &str) -> (r: Result<cron::Schedule, String>)
    ensures
        r is Ok <==> cron_parse_outcome(normalized@) is Ok,
        r is Err ==> cron_parse_outcome(normalized@) == Err::<(), Seq<char>>(r->Err_0@),
{
    match normalized.parse::<cron::Schedule>() {
        Ok(schedule) => Ok(schedule),
        Err(e) => Err(e.to_string()),
    }
}

/// Calls `cron::Schedule::upcoming` in the machine's local time zone and takes
/// the first time, counted from the current clock, as UTC microseconds since
/// the epoch. Nothing is stated of it: it depends on the clock and the zone.
#[verifier::external_body]
fn first_upcoming(schedule: &cron::Schedule) -> (r: Option<i64>) {
    schedule.upcoming(chrono::Local).next().map(|t| t.timestamp_micros())
}

/// When a task runs next: the schedule's upcoming time, or one day after
/// `now_micros` when there is none.
pub fn next_run_at(upcoming: Option<i64>, now_micros: i64) -> (r: i64)
    requires
        now_micros <= i64::MAX - DAY_MICROS,
    ensures
        r == match upcoming {
            Some(t) => t as int,
            None => now_micros + DAY_MICROS,
        },
{
    match upcoming {
        Some(t) => t,
        None => now_micros + DAY_MICROS,
    }
}

/// What is recorded after a scheduled task ran.
#[derive(Debug)]
pub struct TaskRunRecord {
    /// The next run time, UTC microseconds since the epoch.
    pub next_run_at: i64,
    /// `success` when a dispatch arm ran, `unhandled` when none exists.
    pub status: String,
    /// The warning for an expression that the `cron` crate does not accept.
    pub cron_warning: Option<String>,
}

pub open spec fn cron_warning_prefix(name: Seq<char>, expr: Seq<char>) -> Seq<char> {
    "任务 "@ + name + " 的 CRON 表达式 '"@ + expr + "' 规范化为 '"@ + normalized_cron(expr)
        + "' 后仍无效: "@
}

/// The record of a run of task `task_name` with CRON expression `cron_expr`
/// at `now_micros`: the status follows the dispatch arm; the next run is the
/// normalized schedule's next time, or one day later when the `cron` crate
/// rejects the expression, which is then reported.
pub fn task_run_record(task_name: &str, cron_expr: &str, kind: Option<TaskKind>, now_micros: i64) -> (r: TaskRunRecord)
    requires
        now_micros <= i64::MAX - DAY_MICROS,
    ensures
        r.status@ == (if kind is Some { "success"@ } else { "unhandled"@ }),
        r.cron_warning is None <==> cron_parse_outcome(normalized_cron(cron_expr@)) is Ok,
        cron_parse_outcome(normalized_cron(cron_expr@)) matches Err(e) ==> r.next_run_at
            == now_micros + DAY_MICROS && r.cron_warning is Some && r.cron_warning->0@
            == cron_warning_prefix(task_name@, cron_expr@) + e + "，默认 1 天后"@,
{
    let normalized = normalize_cron_expr(cron_expr);
    let status = String::from_str(run_status(kind));
    match parse_cron(normalized.as_str()) {
        Ok(schedule) => TaskRunRecord {
            next_run_at: next_run_at(first_upcoming(&schedule), now_micros),
            status,
            cron_warning: None,
        },
        Err(e) => {
            let mut w = String::from_str("任务 ");
            w.append(task_name);
            w.append(" 的 CRON 表达式 '");
            w.append(cron_expr);
            w.append("' 规范化为 '");
            w.append(normalized.as_str());
            w.append("' 后仍无效: ");
            w.append(e.as_str());
            w.append("，默认 1 天后");
            proof {
                assert(w@ == cron_warning_prefix(task_name@, cron_expr@) + e@ + "，默认 1 天后"@);
            }
            TaskRunRecord { next_run_at: next_run_at(None, now_micros), status, cron_warning: Some(w) }
        },
    }
}

// ───────────────────────── combo used before trading ─────────────────────────

/// The factor combo checked before trading: the strategy's own combo, trimmed,
/// or the canonical `full_pit_icir_37f` when the strategy has none.
pub open spec fn pre_trade_combo_spec(combo_name: Seq<char>) -> Seq<char> {
    if trimmed(combo_name).len() == 0 {
        "full_pit_icir_37f"@
    } else {
        trimmed(combo_name)
    }
}

/// The factor combo checked before trading, from the strategy's `combo_name`.
pub fn pre_trade_factor_combo(combo_name: &str) -> (r: &str)
    ensures
        r@ == pre_trade_combo_spec(combo_name@),
{
    let combo = trim(combo_name);
    if combo.unicode_len() == 0 {
        "full_pit_icir_37f"
    } else {
        combo
    }
}

// ───────────────────────── market-level regime sources ─────────────────────────

/// The sync dataset of a market-level regime source.
pub open spec fn dataset_spec(source: Seq<char>) -> Option<Seq<char>> {
    if source == "market_margin_regime"@ {
        Some("margin"@)
    } else if source == "market_moneyflow_hsgt_regime"@ {
        Some("moneyflow_hsgt"@)
    } else {
        None
    }
}

/// The short name of a market-level regime source in data version ids.
pub open spec fn task_slug_spec(source: Seq<char>) -> Option<Seq<char>> {
    if source == "market_margin_regime"@ {
        Some("margin"@)
    } else if source == "market_moneyflow_hsgt_regime"@ {
        Some("hsgt"@)
    } else {
        None
    }
}

pub open spec fn opt_view(o: Option<&str>) -> Option<Seq<char>> {
    match o {
        Some(s) => Some(s@),
        None => None,
    }
}

/// The sync dataset of a market-level regime source, if it has one.
pub fn market_level_freshness_dataset(source: &str) -> (r: Option<&'static str>)
    ensures
        opt_view(r) == dataset_spec(source@),
{
    if str_eq(source, "market_margin_regime") {
        proof {
            reveal_strlit("margin");
        }
        Some("margin")
    } else if str_eq(source, "market_moneyflow_hsgt_regime") {
        Some("moneyflow_hsgt")
    } else {
        None
    }
}

/// The short name of a market-level regime source, if it has one.
pub fn market_level_freshness_task_slug(source: &str) -> (r: Option<&'static str>)
    ensures
        opt_view(r) == task_slug_spec(source@),
{
    if str_eq(source, "market_margin_regime") {
        Some("margin")
    } else if str_eq(source, "market_moneyflow_hsgt_regime") {
        Some("hsgt")
    } else {
        None
    }
}

/// The non-empty trimmed texts among `items`, in order (`None` items are the
/// non-text entries of the `sources` array).
pub open spec fn listed_sources(items: Seq<Option<Seq<char>>>) -> Seq<Seq<char>>
    decreases items.len(),
{
    if items.len() == 0 {
        Seq::empty()
    } else {
        let before = listed_sources(items.drop_last());
        match items.last() {
            Some(s) => if trimmed(s).len() > 0 {
                before.push(trimmed(s))
            } else {
                before
            },
            None => before,
        }
    }
}

/// The two sources synced when none is configured.
pub open spec fn default_sources() -> Seq<Seq<char>> {
    seq!["market_margin_regime"@, "market_moneyflow_hsgt_regime"@]
}

/// The configured sources when any non-empty one is listed, else the defaults.
pub open spec fn sources_spec(items: Option<Seq<Option<Seq<char>>>>) -> Seq<Seq<char>> {
    match items {
        Some(v) => if listed_sources(v).len() > 0 {
            listed_sources(v)
        } else {
            default_sources()
        },
        None => default_sources(),
    }
}

/// The market-level sources to keep fresh, from the task's `sources` parameter:
/// `None` when the parameter is missing or not an array, otherwise one entry per
/// array item (`None` for an item that is not a string).
pub fn market_level_freshness_sources(items: Option<Vec<Option<String>>>) -> (r: Vec<String>)
    ensures
        r@.map_values(|s: String| s@) == sources_spec(opt_items(items)),
{
    let mut out: Vec<String> = Vec::new();
    if let Some(v) = &items {
        let ghost vv = v@.map_values(|o: Option<String>| opt_str(o));
        let mut i: usize = 0;
        while i < v.len()
            invariant
                0 <= i <= v@.len(),
                vv == v@.map_values(|o: Option<String>| opt_str(o)),
                out@.map_values(|s: String| s@) == listed_sources(vv.take(i as int)),
            decreases v.len() - i,
        {
            proof {
                assert(vv.take(i + 1).drop_last() =~= vv.take(i as int));
                assert(vv.take(i + 1).last() == opt_str(v@[i as int]));
            }
            match &v[i] {
                Some(s) => {
                    let t = trim(s.as_str());
                    if t.unicode_len() > 0 {
                        let ghost before = out@;
                        out.push(t.to_owned());
                        proof {
                            assert(out@.map_values(|s: String| s@) =~= before.map_values(
                                |s: String| s@,
                            ).push(t@));
                        }
                    }
                },
                None => {},
            }
            i = i + 1;
        }
        proof {
            assert(vv.take(v@.len() as int) =~= vv);
        }
    }
    if out.len() == 0 {
        let mut d: Vec<String> = Vec::new();
        d.push(String::from_str("market_margin_regime"));
        d.push(String::from_str("market_moneyflow_hsgt_regime"));
        proof {
            assert(d@.map_values(|s: String| s@) =~= default_sources());
        }
        return d;
    }
    out
}

/// The request body of a market-level source sync (`POST /data/sync-tasks`).
#[derive(Debug)]
pub struct MarketLevelSyncPayload {
    pub dataset: String,
    pub source: String,
    pub start_date: String,
    pub end_date: String,
    pub data_version_id: String,
    pub background: bool,
    pub reason: String,
}

/// The first day to sync: the day after the latest synced one, but never after
/// today; today when nothing was synced yet.
pub open spec fn sync_start(latest: Option<CivilDate>, today: CivilDate) -> CivilDate {
    match latest {
        Some(d) => if today.before(civil_succ(d)) {
            today
        } else {
            civil_succ(d)
        },
        None => today,
    }
}

/// Law: a sync request never starts after the day it ends (today); it starts
/// the day after the latest synced day whenever that day is not after today.
pub proof fn law_sync_window_ordered(latest: Option<CivilDate>, today: CivilDate)
    ensures
        !today.before(sync_start(latest, today)),
        latest matches Some(d) ==> (!today.before(civil_succ(d)) ==> sync_start(latest, today)
            == civil_succ(d)),
{
}

/// The sync request for a market-level source, or `None` for a source that has
/// no sync dataset. `latest` is the latest trade date already in its table.
pub fn market_level_freshness_sync_payload(
    source: &str,
    latest: Option<CivilDate>,
    today: CivilDate,
) -> (r: Option<MarketLevelSyncPayload>)
    requires
        today.wf(),
        latest matches Some(d) ==> d.wf() && !d.is_last_supported(),
    ensures
        dataset_spec(source@) is None ==> r is None,
        dataset_spec(source@) matches Some(ds) ==> r matches Some(p) && {
            &&& p.dataset@ == ds
            &&& p.source@ == "tushare"@
            &&& p.start_date@ == compact_text(sync_start(latest, today))
            &&& p.end_date@ == compact_text(today)
            &&& p.data_version_id@ == "dv-p315-"@ + task_slug_spec(source@)->0 + "-"@
                + compact_text(today)
            &&& p.background
            &&& p.reason@ == "scheduled_p315_market_level_regime_source_freshness"@
        },
{
    let dataset = match market_level_freshness_dataset(source) {
        Some(d) => d,
        None => {
            return None;
        },
    };
    let slug = match market_level_freshness_task_slug(source) {
        Some(s) => s,
        None => {
            return None;
        },
    };
    let start = match latest {
        Some(d) => {
            let next = next_day(d);
            if date_before(&today, &next) {
                today
            } else {
                next
            }
        },
        None => today,
    };
    let end_text = compact_date_text(today);
    let mut dv = String::from_str("dv-p315-");
    dv.append(slug);
    dv.append("-");
    dv.append(end_text.as_str());
    Some(
        MarketLevelSyncPayload {
            dataset: String::from_str(dataset),
            source: String::from_str("tushare"),
            start_date: compact_date_text(start),
            end_date: end_text,
            data_version_id: dv,
            background: true,
            reason: String::from_str("scheduled_p315_market_level_regime_source_freshness"),
        },
    )
}

// ───────────────────────── factor backfill routes ─────────────────────────

/// The factor backfill routes used when the `factor_backfill_route` table has
/// none enabled: `(route path segment, label)`.
pub open spec fn fallback_routes_spec() -> Seq<(Seq<char>, Seq<char>)> {
    seq![
        ("phase7-price-volume-backfill"@, "量价+amihud"@),
        ("p42b-defensive-low-vol-quality-backfill"@, "防御低波质量"@),
        ("phase7-financial-quality-backfill"@, "财务质量"@),
        ("phase7-financial-quality-change-backfill"@, "财务质量变化"@),
        ("phase7-growth-recovery-backfill"@, "质量增长恢复"@),
        ("phase7-moneyflow-backfill"@, "资金流"@),
        ("phase7-moneyflow-congestion-backfill"@, "资金流拥挤度"@),
        ("phase7-forecast-revision-surprise-backfill"@, "分析师预测修正"@),
        ("phase7-market-residual-risk-backfill"@, "市场残差风险"@),
        ("phase7-block-trade-supply-demand-backfill"@, "大宗交易"@),
        ("phase7-repurchase-supply-shock-backfill"@, "回购"@),
        ("phase7-liquidity-quality-backfill"@, "流动性质量"@),
    ]
}

pub open spec fn pairs_view(v: Seq<(String, String)>) -> Seq<(Seq<char>, Seq<char>)> {
    v.map_values(|p: (String, String)| (p.0@, p.1@))
}

fn route(r: &str, l: &str) -> (p: (String, String))
    ensures
        p.0@ == r@,
        p.1@ == l@,
{
    (String::from_str(r), String::from_str(l))
}

/// The fallback factor backfill routes.
pub fn v24_backfill_routes_fallback() -> (r: Vec<(String, String)>)
    ensures
        pairs_view(r@) == fallback_routes_spec(),
{
    let mut v: Vec<(String, String)> = Vec::new();
    v.push(route("phase7-price-volume-backfill", "量价+amihud"));
    v.push(route("p42b-defensive-low-vol-quality-backfill", "防御低波质量"));
    v.push(route("phase7-financial-quality-backfill", "财务质量"));
    v.push(route("phase7-financial-quality-change-backfill", "财务质量变化"));
    v.push(route("phase7-growth-recovery-backfill", "质量增长恢复"));
    v.push(route("phase7-moneyflow-backfill", "资金流"));
    v.push(route("phase7-moneyflow-congestion-backfill", "资金流拥挤度"));
    v.push(route("phase7-forecast-revision-surprise-backfill", "分析师预测修正"));
    v.push(route("phase7-market-residual-risk-backfill", "市场残差风险"));
    v.push(route("phase7-block-trade-supply-demand-backfill", "大宗交易"));
    v.push(route("phase7-repurchase-supply-shock-backfill", "回购"));
    v.push(route("phase7-liquidity-quality-backfill", "流动性质量"));
    proof {
        assert(pairs_view(v@) =~= fallback_routes_spec());
    }
    v
}

/// The backfill routes to trigger: the enabled rows of `factor_backfill_route`
/// when the query succeeded (`Some`) with at least one row, else the fallback.
pub fn select_backfill_routes(db_rows: Option<Vec<(String, String)>>) -> (r: Vec<(String, String)>)
    ensures
        match db_rows {
            Some(rows) => if rows@.len() > 0 {
                r@ == rows@
            } else {
                pairs_view(r@) == fallback_routes_spec()
            },
            None => pairs_view(r@) == fallback_routes_spec(),
        },
{
    match db_rows {
        Some(rows) => if rows.len() > 0 {
            rows
        } else {
            v24_backfill_routes_fallback()
        },
        None => v24_backfill_routes_fallback(),
    }
}

} // verus!
