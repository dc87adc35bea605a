//! The settings of a factor run: the walk-forward (WFA) parameters in force
//! override the strategy's combo and size, fixed defaults fill the rest, and
//! the optional risk settings are passed on only where the WFA parameters
//! give them.
use vstd::prelude::*;
use vstd::string::*;
use crate::schedule::pairs_view;
use crate::text::{opt_str, str_eq};

verus! {

/// The text value of `key` among the WFA parameter entries (the first entry
/// with that key); entries are the parameters whose values are strings.
pub open spec fn param_text(entries: Seq<(Seq<char>, Seq<char>)>, key: Seq<char>) -> Option<Seq<char>>
    decreases entries.len(),
{
    if entries.len() == 0 {
        None
    } else if entries[0].0 == key {
        Some(entries[0].1)
    } else {
        param_text(entries.drop_first(), key)
    }
}

/// The text value of `key` among the WFA parameter entries.
pub fn wfa_text(entries: &Vec<(String, String)>, key: &str) -> (r: Option<String>)
    ensures
        opt_str(r) == param_text(pairs_view(entries@), key@),
{
    let ghost all = pairs_view(entries@);
    let mut i: usize = 0;
    assert(all.skip(0) =~= all);
    while i < entries.len()
        invariant
            0 <= i <= entries@.len(),
            all == pairs_view(entries@),
            param_text(all, key@) == param_text(all.skip(i as int), key@),
        decreases entries@.len() - i,
    {
        proof {
            assert(all.skip(i as int).drop_first() =~= all.skip(i + 1));
            assert(all.skip(i as int)[0] == all[i as int]);
        }
        if str_eq(entries[i].0.as_str(), key) {
            return Some(entries[i].1.clone());
        }
        i = i + 1;
    }
    proof {
        assert(all.skip(i as int).len() == 0);
    }
    None
}

/// The settings of a factor run.
#[derive(Debug)]
pub struct RunFactorParams {
    pub combo_name: String,
    pub top_n: u64,
    /// Rebalance period in trading days, as text.
    pub rebalance: String,
    pub score_direction: String,
    pub portfolio_method: String,
    /// The decimal settings, as the WFA parameters write them (parsed by the
    /// caller, which applies their defaults).
    pub max_position_pct: Option<String>,
    pub max_gross_exposure: Option<String>,
    pub skip_top_pct: Option<String>,
    /// Risk settings passed on only when the WFA parameters give them.
    pub stop_loss_pct: Option<String>,
    pub event_gate_combo_name: Option<String>,
    pub event_gate_mode: Option<String>,
    pub event_gate_score_direction: Option<String>,
    pub candidate_risk_filter: Option<String>,
    pub portfolio_volatility_control: Option<String>,
    pub portfolio_drawdown_control: Option<String>,
    pub risk_contribution_control: Option<String>,
    pub max_pairwise_correlation: Option<String>,
    pub partial_rebalance_ratio: Option<String>,
    pub event_gate_min_score: Option<String>,
}

/// A WFA text setting, or `d` when the parameters do not give it.
pub open spec fn text_or_default(entries: Seq<(Seq<char>, Seq<char>)>, key: Seq<char>, d: Seq<char>) -> Seq<char> {
    match param_text(entries, key) {
        Some(v) => v,
        None => d,
    }
}

fn wfa_text_or(entries: &Vec<(String, String)>, key: &str, d: &str) -> (r: String)
    ensures
        r@ == text_or_default(pairs_view(entries@), key@, d@),
{
    match wfa_text(entries, key) {
        Some(v) => v,
        None => String::from_str(d),
    }
}

/// The settings of a factor run for a strategy with combo `combo_name` and
/// size `top_n`, under the WFA parameters `wfa` (their string entries) and
/// `wfa_top_n` (their `top_n`, when it is a non-negative integer). The combo
/// and size come from the WFA parameters when they give them; the rebalance
/// period defaults to `40`, the score direction to `descending`, the
/// portfolio method to `heuristic`.
pub fn run_factor_params(
    wfa: &Vec<(String, String)>,
    wfa_top_n: Option<u64>,
    combo_name: &str,
    top_n: i64,
) -> (r: RunFactorParams)
    ensures
        r.combo_name@ == text_or_default(pairs_view(wfa@), "combo_name"@, combo_name@),
        r.top_n == (match wfa_top_n {
            Some(t) => t,
            None => top_n as u64,
        }),
        r.rebalance@ == text_or_default(pairs_view(wfa@), "rebalance"@, "40"@),
        r.score_direction@ == text_or_default(pairs_view(wfa@), "score_direction"@, "descending"@),
        r.portfolio_method@ == text_or_default(pairs_view(wfa@), "portfolio_method"@, "heuristic"@),
        opt_str(r.max_position_pct) == param_text(pairs_view(wfa@), "max_position_pct"@),
        opt_str(r.max_gross_exposure) == param_text(pairs_view(wfa@), "max_gross_exposure"@),
        opt_str(r.skip_top_pct) == param_text(pairs_view(wfa@), "skip_top_pct"@),
        opt_str(r.stop_loss_pct) == param_text(pairs_view(wfa@), "stop_loss_pct"@),
        opt_str(r.event_gate_combo_name) == param_text(pairs_view(wfa@), "event_gate_combo_name"@),
        opt_str(r.event_gate_mode) == param_text(pairs_view(wfa@), "event_gate_mode"@),
        opt_str(r.event_gate_score_direction) == param_text(
            pairs_view(wfa@),
            "event_gate_score_direction"@,
        ),
        opt_str(r.candidate_risk_filter) == param_text(pairs_view(wfa@), "candidate_risk_filter"@),
        opt_str(r.portfolio_volatility_control) == param_text(
            pairs_view(wfa@),
            "portfolio_volatility_control"@,
        ),
        opt_str(r.portfolio_drawdown_control) == param_text(
            pairs_view(wfa@),
            "portfolio_drawdown_control"@,
        ),
        opt_str(r.risk_contribution_control) == param_text(
            pairs_view(wfa@),
            "risk_contribution_control"@,
        ),
        opt_str(r.max_pairwise_correlation) == param_text(
            pairs_view(wfa@),
            "max_pairwise_correlation"@,
        ),
        opt_str(r.partial_rebalance_ratio) == param_text(
            pairs_view(wfa@),
            "partial_rebalance_ratio"@,
        ),
        opt_str(r.event_gate_min_score) == param_text(pairs_view(wfa@), "event_gate_min_score"@),
{
    let top: u64 = match wfa_top_n {
        Some(t) => t,
        None => top_n as u64,
    };
    RunFactorParams {
        combo_name: wfa_text_or(wfa, "combo_name", combo_name),
        top_n: top,
        rebalance: wfa_text_or(wfa, "rebalance", "40"),
        score_direction: wfa_text_or(wfa, "score_direction", "descending"),
        portfolio_method: wfa_text_or(wfa, "portfolio_method", "heuristic"),
        max_position_pct: wfa_text(wfa, "max_position_pct"),
        max_gross_exposure: wfa_text(wfa, "max_gross_exposure"),
        skip_top_pct: wfa_text(wfa, "skip_top_pct"),
        stop_loss_pct: wfa_text(wfa, "stop_loss_pct"),
        event_gate_combo_name: wfa_text(wfa, "event_gate_combo_name"),
        event_gate_mode: wfa_text(wfa, "event_gate_mode"),
        event_gate_score_direction: wfa_text(wfa, "event_gate_score_direction"),
        candidate_risk_filter: wfa_text(wfa, "candidate_risk_filter"),
        portfolio_volatility_control: wfa_text(wfa, "portfolio_volatility_control"),
        portfolio_drawdown_control: wfa_text(wfa, "portfolio_drawdown_control"),
        risk_contribution_control: wfa_text(wfa, "risk_contribution_control"),
        max_pairwise_correlation: wfa_text(wfa, "max_pairwise_correlation"),
        partial_rebalance_ratio: wfa_text(wfa, "partial_rebalance_ratio"),
        event_gate_min_score: wfa_text(wfa, "event_gate_min_score"),
    }
}

} // verus!
