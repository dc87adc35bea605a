//! The audit of the scheduled-task table: required tasks that are missing,
//! CRON expressions that cannot be read, and tasks scheduled before the data
//! they depend on.
use vstd::prelude::*;
use vstd::string::*;
use crate::schedule::{pairs_view, scheduled_task_time_minutes, task_time_spec};
use crate::text::{dec, dec_padded, push_dec, push_dec_padded, str_eq, strings_view};

verus! {

/// The tasks trading depends on: `(task name, description)`.
pub open spec fn required_tasks() -> Seq<(Seq<char>, Seq<char>)> {
    seq![
        ("factor_backfill_daily"@, "因子回填 phase7 量价因子"@),
        ("pit_combo_refresh_daily"@, "PIT combo 保鲜(因子组合物化)"@),
        ("data_quality_daily"@, "数据质量检查"@),
    ]
}

/// Whether a task of this name is among the enabled ones.
pub open spec fn configured(tasks: Seq<(Seq<char>, Seq<char>)>, name: Seq<char>) -> bool {
    exists|i: int| 0 <= i < tasks.len() && #[trigger] tasks[i].0 == name
}

pub open spec fn missing_msg(name: Seq<char>, desc: Seq<char>) -> Seq<char> {
    "缺少必要定时任务: "@ + name + " ("@ + desc + ") — 盘中调仓数据可能无保障, 请在 /tasks 页面配置"@
}

/// One message per required task that is not configured, in the order of `required_tasks`.
pub open spec fn missing_issues(tasks: Seq<(Seq<char>, Seq<char>)>) -> Seq<Seq<char>> {
    let r = required_tasks();
    let one = |k: int|
        if configured(tasks, r[k].0) {
            Seq::<Seq<char>>::empty()
        } else {
            seq![missing_msg(r[k].0, r[k].1)]
        };
    one(0) + one(1) + one(2)
}

/// One message per task whose CRON expression cannot be read, in table order.
pub open spec fn parse_issues(tasks: Seq<(Seq<char>, Seq<char>)>) -> Seq<Seq<char>>
    decreases tasks.len(),
{
    if tasks.len() == 0 {
        Seq::empty()
    } else {
        let prev = parse_issues(tasks.drop_last());
        match task_time_spec(tasks.last().1) {
            Err(m) => prev.push(tasks.last().0 + ": "@ + m),
            Ok(_) => prev,
        }
    }
}

/// The tasks whose CRON expression can be read, with their minute of the day.
pub open spec fn task_times(tasks: Seq<(Seq<char>, Seq<char>)>) -> Seq<(Seq<char>, u32)>
    decreases tasks.len(),
{
    if tasks.len() == 0 {
        Seq::empty()
    } else {
        let prev = task_times(tasks.drop_last());
        match task_time_spec(tasks.last().1) {
            Ok(t) => prev.push((tasks.last().0, t)),
            Err(_) => prev,
        }
    }
}

/// The minute of the first timed task with this name.
pub open spec fn first_time_of(times: Seq<(Seq<char>, u32)>, name: Seq<char>) -> Option<u32>
    decreases times.len(),
{
    if times.len() == 0 {
        None
    } else {
        match first_time_of(times.drop_last(), name) {
            Some(t) => Some(t),
            None => if times.last().0 == name {
                Some(times.last().1)
            } else {
                None
            },
        }
    }
}

pub open spec fn early_backfill_msg(t: u32) -> Seq<char> {
    "factor_backfill_daily: CRON "@ + dec((t / 60) as nat) + ":"@ + dec_padded((t % 60) as nat, 2)
        + " (BJ) 早于日线同步完成 (16:10),\n                     因子计算可能缺少当日日线数据"@
}

pub open spec fn early_curve_msg(t: u32, fm: u32) -> Seq<char> {
    "equity_curve_monthly: CRON "@ + dec((t / 60) as nat) + ":"@ + dec_padded((t % 60) as nat, 2)
        + " (BJ) 早于 factor_backfill_daily ("@ + dec((fm / 60) as nat) + ":"@ + dec_padded(
        (fm % 60) as nat,
        2,
    ) + "),\n                         权益曲线可能缺少因子数据"@
}

/// The ordering problems of one timed task: the factor backfill before 09:00
/// (before the T+1 daily bars are in), or the monthly equity curve before the
/// factor backfill.
pub open spec fn item_issues(name: Seq<char>, t: u32, factor_time: Option<u32>) -> Seq<Seq<char>> {
    if name == "factor_backfill_daily"@ {
        if t < 970 && t < 540 {
            seq![early_backfill_msg(t)]
        } else {
            Seq::empty()
        }
    } else if name == "equity_curve_monthly"@ {
        match factor_time {
            Some(fm) => if t < fm {
                seq![early_curve_msg(t, fm)]
            } else {
                Seq::empty()
            },
            None => Seq::empty(),
        }
    } else {
        Seq::empty()
    }
}

pub open spec fn order_issues(times: Seq<(Seq<char>, u32)>, factor_time: Option<u32>) -> Seq<Seq<char>>
    decreases times.len(),
{
    if times.len() == 0 {
        Seq::empty()
    } else {
        order_issues(times.drop_last(), factor_time) + item_issues(
            times.last().0,
            times.last().1,
            factor_time,
        )
    }
}

/// Everything the audit reports, in order: missing required tasks, unreadable
/// CRON expressions, then ordering problems.
pub open spec fn audit_spec(tasks: Seq<(Seq<char>, Seq<char>)>) -> Seq<Seq<char>> {
    let times = task_times(tasks);
    missing_issues(tasks) + parse_issues(tasks) + order_issues(
        times,
        first_time_of(times, "factor_backfill_daily"@),
    )
}

pub open spec fn times_view(v: Seq<(String, u32)>) -> Seq<(Seq<char>, u32)> {
    v.map_values(|p: (String, u32)| (p.0@, p.1))
}

fn has_task(tasks: &Vec<(String, String)>, name: &str) -> (r: bool)
    ensures
        r == configured(pairs_view(tasks@), name@),
{
    let ghost tv = pairs_view(tasks@);
    let mut i: usize = 0;
    while i < tasks.len()
        invariant
            0 <= i <= tasks@.len(),
            tv == pairs_view(tasks@),
            forall|j: int| 0 <= j < i ==> tv[j].0 != name@,
        decreases tasks.len() - i,
    {
        if str_eq(tasks[i].0.as_str(), name) {
            assert(tv[i as int].0 == name@);
            return true;
        }
        i = i + 1;
    }
    false
}

fn push_missing(out: &mut Vec<String>, tasks: &Vec<(String, String)>, name: &str, desc: &str)
    ensures
        strings_view(final(out)@) == strings_view(old(out)@) + (if configured(
            pairs_view(tasks@),
            name@,
        ) {
            Seq::<Seq<char>>::empty()
        } else {
            seq![missing_msg(name@, desc@)]
        }),
{
    if !has_task(tasks, name) {
        let mut m = String::from_str("缺少必要定时任务: ");
        m.append(name);
        m.append(" (");
        m.append(desc);
        m.append(") — 盘中调仓数据可能无保障, 请在 /tasks 页面配置");
        out.push(m);
        assert(strings_view(out@) =~= strings_view(old(out)@) + seq![missing_msg(name@, desc@)]);
    } else {
        assert(strings_view(out@) =~= strings_view(old(out)@) + Seq::<Seq<char>>::empty());
    }
}

fn early_backfill_message(t: u32) -> (r: String)
    ensures
        r@ == early_backfill_msg(t),
{
    let mut m = String::from_str("factor_backfill_daily: CRON ");
    push_dec(&mut m, (t / 60) as u64);
    m.append(":");
    push_dec_padded(&mut m, (t % 60) as u64, 2);
    m.append(" (BJ) 早于日线同步完成 (16:10),\n                     因子计算可能缺少当日日线数据");
    m
}

fn early_curve_message(t: u32, fm: u32) -> (r: String)
    ensures
        r@ == early_curve_msg(t, fm),
{
    let mut m = String::from_str("equity_curve_monthly: CRON ");
    push_dec(&mut m, (t / 60) as u64);
    m.append(":");
    push_dec_padded(&mut m, (t % 60) as u64, 2);
    m.append(" (BJ) 早于 factor_backfill_daily (");
    push_dec(&mut m, (fm / 60) as u64);
    m.append(":");
    push_dec_padded(&mut m, (fm % 60) as u64, 2);
    m.append("),\n                         权益曲线可能缺少因子数据");
    m
}

/// Audits the enabled scheduled tasks, given as `(task_name, schedule_cron)`
/// rows, and returns the problems found (empty when the schedule is sound).
pub fn task_order_issues(tasks: &Vec<(String, String)>) -> (r: Vec<String>)
    ensures
        strings_view(r@) == audit_spec(pairs_view(tasks@)),
{
    let ghost tv = pairs_view(tasks@);
    let mut out: Vec<String> = Vec::new();
    push_missing(&mut out, tasks, "factor_backfill_daily", "因子回填 phase7 量价因子");
    push_missing(&mut out, tasks, "pit_combo_refresh_daily", "PIT combo 保鲜(因子组合物化)");
    push_missing(&mut out, tasks, "data_quality_daily", "数据质量检查");
    proof {
        assert(strings_view(out@) =~= missing_issues(tv));
    }
    let ghost missing = strings_view(out@);
    // Pass 1: read each task's CRON time; unreadable ones are reported.
    let mut times: Vec<(String, u32)> = Vec::new();
    let mut i: usize = 0;
    while i < tasks.len()
        invariant
            0 <= i <= tasks@.len(),
            tv == pairs_view(tasks@),
            strings_view(out@) == missing + parse_issues(tv.take(i as int)),
            times_view(times@) == task_times(tv.take(i as int)),
        decreases tasks.len() - i,
    {
        proof {
            assert(tv.take(i + 1).drop_last() =~= tv.take(i as int));
            assert(tv.take(i + 1).last() == tv[i as int]);
        }
        let name = &tasks[i].0;
        match scheduled_task_time_minutes(tasks[i].1.as_str()) {
            Ok(t) => {
                let ghost before = times@;
                times.push((name.clone(), t));
                proof {
                    assert(times_view(times@) =~= times_view(before).push((tv[i as int].0, t)));
                }
            },
            Err(msg) => {
                let ghost before = out@;
                let mut m = name.clone();
                m.append(": ");
                m.append(msg.as_str());
                out.push(m);
                proof {
                    assert(strings_view(out@) =~= strings_view(before).push(
                        tv[i as int].0 + ": "@ + msg@,
                    ));
                    assert(missing + parse_issues(tv.take(i + 1)) =~= (missing + parse_issues(
                        tv.take(i as int),
                    )).push(tv[i as int].0 + ": "@ + msg@));
                }
            },
        }
        i = i + 1;
    }
    proof {
        assert(tv.take(tasks@.len() as int) =~= tv);
    }
    let ghost tms = times_view(times@);
    // The minute of the first factor backfill task.
    let mut factor_time: Option<u32> = None;
    let mut k: usize = 0;
    while k < times.len()
        invariant
            0 <= k <= times@.len(),
            tms == times_view(times@),
            factor_time == first_time_of(tms.take(k as int), "factor_backfill_daily"@),
        decreases times.len() - k,
    {
        proof {
            assert(tms.take(k + 1).drop_last() =~= tms.take(k as int));
            assert(tms.take(k + 1).last() == tms[k as int]);
        }
        if factor_time.is_none() && str_eq(times[k].0.as_str(), "factor_backfill_daily") {
            factor_time = Some(times[k].1);
        }
        k = k + 1;
    }
    proof {
        assert(tms.take(times@.len() as int) =~= tms);
    }
    let ghost before_order = strings_view(out@);
    // Pass 2: ordering problems.
    let mut j: usize = 0;
    while j < times.len()
        invariant
            0 <= j <= times@.len(),
            tms == times_view(times@),
            factor_time == first_time_of(tms, "factor_backfill_daily"@),
            strings_view(out@) == before_order + order_issues(tms.take(j as int), factor_time),
        decreases times.len() - j,
    {
        proof {
            assert(tms.take(j + 1).drop_last() =~= tms.take(j as int));
            assert(tms.take(j + 1).last() == tms[j as int]);
        }
        let t = times[j].1;
        let ghost before = strings_view(out@);
        let ghost nm = tms[j as int].0;
        if str_eq(times[j].0.as_str(), "factor_backfill_daily") {
            if t < 970 && t < 540 {
                out.push(early_backfill_message(t));
                proof {
                    assert(strings_view(out@) =~= before + item_issues(nm, t, factor_time));
                }
            } else {
                proof {
                    assert(strings_view(out@) =~= before + item_issues(nm, t, factor_time));
                }
            }
        } else if str_eq(times[j].0.as_str(), "equity_curve_monthly") {
            let mut pushed = false;
            if let Some(fm) = factor_time {
                if t < fm {
                    out.push(early_curve_message(t, fm));
                    pushed = true;
                }
            }
            proof {
                assert(strings_view(out@) =~= before + item_issues(nm, t, factor_time));
            }
        } else {
            proof {
                assert(strings_view(out@) =~= before + item_issues(nm, t, factor_time));
            }
        }
        proof {
            assert(before_order + order_issues(tms.take(j + 1), factor_time) =~= before_order
                + order_issues(tms.take(j as int), factor_time) + item_issues(nm, t, factor_time));
        }
        j = j + 1;
    }
    proof {
        assert(tms.take(times@.len() as int) =~= tms);
        assert(strings_view(out@) =~= audit_spec(tv));
    }
    out
}

} // verus!
