//! The pre-trade data check: which factor combos it checks, how a stale combo
//! is refreshed, and the texts of the problems it reports.
use vstd::prelude::*;
use vstd::string::*;
use crate::calendar::{CivilDate, dashed_date_text, dashed_text};
use crate::schedule::{pre_trade_combo_spec, pre_trade_factor_combo};
use crate::text::{dec_signed, joined, push_dec_signed, str_eq, strings_view};

verus! {

/// The combos whose factor values must be fresh before trading: those the
/// active strategies declare, or the strategy's own combo when none is active.
pub fn pre_trade_combos(active: Vec<String>, strategy_combo: &str) -> (r: Vec<String>)
    ensures
        active@.len() > 0 ==> r@ == active@,
        active@.len() == 0 ==> strings_view(r@) == seq![pre_trade_combo_spec(strategy_combo@)],
{
    if active.len() > 0 {
        active
    } else {
        let mut v: Vec<String> = Vec::new();
        v.push(pre_trade_factor_combo(strategy_combo).to_owned());
        proof {
            assert(strings_view(v@) =~= seq![pre_trade_combo_spec(strategy_combo@)]);
        }
        v
    }
}

/// How a stale combo is brought up to date.
#[derive(Debug, Clone, Copy, PartialEq, Eq, Structural)]
pub enum FactorRefresh {
    /// Post the phase7 price-volume backfill route over the last 30 days.
    Phase7Backfill,
    /// Materialize the PIT combo over the last 30 days.
    PitMaterialize,
}

/// The price-volume expanded combo is refreshed by its backfill route; every
/// other combo by PIT materialization.
pub fn factor_refresh_route(combo: &str) -> (r: FactorRefresh)
    ensures
        r == (if combo@ == "phase7_price_volume_expanded_v1"@ {
            FactorRefresh::Phase7Backfill
        } else {
            FactorRefresh::PitMaterialize
        }),
{
    if str_eq(combo, "phase7_price_volume_expanded_v1") {
        FactorRefresh::Phase7Backfill
    } else {
        FactorRefresh::PitMaterialize
    }
}

/// A problem the pre-trade check could not repair.
#[derive(Debug)]
pub enum PreTradeIssue {
    /// An ETF's bars lag `gap` trading days and syncing failed.
    EtfSyncFailed { symbol: String, gap: i64 },
    /// The A-share probe's bars lag and syncing failed.
    StockSyncFailed { probe: String },
    /// The combo still lags `gap` trading days after its refresh.
    FactorStillStale { combo: String, gap: i64 },
    /// The combo's refresh could not be started.
    FactorTriggerFailed { combo: String },
}

pub open spec fn issue_text(i: PreTradeIssue) -> Seq<char> {
    match i {
        PreTradeIssue::EtfSyncFailed { symbol, gap } => "ETF "@ + symbol@ + ": 数据落后"@
            + dec_signed(gap as int) + "交易日, 自动同步失败"@,
        PreTradeIssue::StockSyncFailed { probe } => "A股日线("@ + probe@ + "): 数据落后, 自动同步失败"@,
        PreTradeIssue::FactorStillStale { combo, gap } => "因子("@ + combo@ + "): 自动回填后仍落后"@
            + dec_signed(gap as int) + "交易日, 请检查底层数据"@,
        PreTradeIssue::FactorTriggerFailed { combo } => "因子("@ + combo@ + "): 自动回填触发失败"@,
    }
}

impl PreTradeIssue {
    /// The line reported for this problem.
    pub fn message(&self) -> (r: String)
        ensures
            r@ == issue_text(*self),
    {
        match self {
            PreTradeIssue::EtfSyncFailed { symbol, gap } => {
                let mut s = String::from_str("ETF ");
                s.append(symbol.as_str());
                s.append(": 数据落后");
                push_dec_signed(&mut s, *gap);
                s.append("交易日, 自动同步失败");
                s
            },
            PreTradeIssue::StockSyncFailed { probe } => {
                let mut s = String::from_str("A股日线(");
                s.append(probe.as_str());
                s.append("): 数据落后, 自动同步失败");
                s
            },
            PreTradeIssue::FactorStillStale { combo, gap } => {
                let mut s = String::from_str("因子(");
                s.append(combo.as_str());
                s.append("): 自动回填后仍落后");
                push_dec_signed(&mut s, *gap);
                s.append("交易日, 请检查底层数据");
                s
            },
            PreTradeIssue::FactorTriggerFailed { combo } => {
                let mut s = String::from_str("因子(");
                s.append(combo.as_str());
                s.append("): 自动回填触发失败");
                s
            },
        }
    }
}

/// The alert sent when the pre-trade check refuses the rebalance: the date and
/// every problem, one per line.
pub fn rejection_alert(today: CivilDate, problems: &Vec<String>) -> (r: String)
    requires
        today.wf(),
    ensures
        r@ == "⛔ [调仓拒绝] "@ + dashed_text(today) + " 数据异常，已尝试自动修复失败:\n"@ + joined(
            strings_view(problems@),
            "\n"@,
        ),
{
    let mut s = String::from_str("⛔ [调仓拒绝] ");
    s.append(dashed_date_text(today).as_str());
    s.append(" 数据异常，已尝试自动修复失败:\n");
    let body = crate::text::join(problems, "\n");
    proof {
        assert(problems@.map_values(|t: String| t@) =~= strings_view(problems@));
    }
    s.append(body.as_str());
    s
}

} // verus!
