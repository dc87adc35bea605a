//! The decisions of a rebalance that do not depend on prices: where ETF prices
//! come from, which ETFs are already listed, which held A shares are cleared,
//! and when an empty rebalance is an error.
use vstd::prelude::*;
use crate::calendar::{CivilDate, date_before};
use crate::text::{str_eq, strings_view};

verus! {

/// Where a rebalance takes its prices from: the one difference between a
/// replay and live trading.
#[derive(Debug, Clone, Copy, PartialEq, Eq, Structural)]
pub enum PriceSource {
    /// Replay: the day's closing prices.
    EodClose,
    /// Live: intraday quotes.
    Intraday,
}

/// Where the price of one ETF comes from.
#[derive(Debug, Clone, Copy, PartialEq, Eq, Structural)]
pub enum EtfPriceOrigin {
    /// The closing prices loaded for the whole ETF list beforehand.
    PreloadedClose,
    /// The intraday quote fetched for this rebalance.
    IntradayQuote,
    /// The latest close on or before the day, looked up on its own.
    LatestClose,
}

pub open spec fn etf_price_origin_spec(source: PriceSource, intraday_positive: bool) -> EtfPriceOrigin {
    match source {
        PriceSource::EodClose => EtfPriceOrigin::PreloadedClose,
        PriceSource::Intraday => if intraday_positive {
            EtfPriceOrigin::IntradayQuote
        } else {
            EtfPriceOrigin::LatestClose
        },
    }
}

/// Where an ETF's price is taken from; `intraday_positive` says whether a
/// positive intraday quote was fetched for it.
pub fn etf_price_origin(source: PriceSource, intraday_positive: bool) -> (r: EtfPriceOrigin)
    ensures
        r == etf_price_origin_spec(source, intraday_positive),
{
    match source {
        PriceSource::EodClose => EtfPriceOrigin::PreloadedClose,
        PriceSource::Intraday => if intraday_positive {
            EtfPriceOrigin::IntradayQuote
        } else {
            EtfPriceOrigin::LatestClose
        },
    }
}

/// An ETF counts as listed on `date` when its listing date is on or before it;
/// without a listing date, when its first bar is on or before it.
pub open spec fn listed_on_spec(list_date: Option<CivilDate>, first_bar: Option<CivilDate>, date: CivilDate) -> bool {
    match list_date {
        Some(ld) => !date.before(ld),
        None => match first_bar {
            Some(f) => !date.before(f),
            None => false,
        },
    }
}

pub fn etf_listed_on(list_date: Option<CivilDate>, first_bar: Option<CivilDate>, date: CivilDate) -> (r: bool)
    ensures
        r == listed_on_spec(list_date, first_bar, date),
{
    match list_date {
        Some(ld) => !date_before(&date, &ld),
        None => match first_bar {
            Some(f) => !date_before(&date, &f),
            None => false,
        },
    }
}

/// A listing row: symbol, listing date, first bar date.
pub open spec fn listing_view(r: (String, Option<CivilDate>, Option<CivilDate>)) -> (Seq<char>, Option<CivilDate>, Option<CivilDate>) {
    (r.0@, r.1, r.2)
}

pub open spec fn listings_view(rows: Seq<(String, Option<CivilDate>, Option<CivilDate>)>) -> Seq<(Seq<char>, Option<CivilDate>, Option<CivilDate>)> {
    rows.map_values(|r: (String, Option<CivilDate>, Option<CivilDate>)| listing_view(r))
}

/// Whether `sym` is listed on `date` by the listing rows, the last row of the
/// symbol deciding; a symbol without a row is not listed.
pub open spec fn listed_by_rows(rows: Seq<(Seq<char>, Option<CivilDate>, Option<CivilDate>)>, sym: Seq<char>, date: CivilDate) -> bool
    decreases rows.len(),
{
    if rows.len() == 0 {
        false
    } else if rows.last().0 == sym {
        listed_on_spec(rows.last().1, rows.last().2, date)
    } else {
        listed_by_rows(rows.drop_last(), sym, date)
    }
}

/// The configured ETFs that are listed on `date`, in configured order.
pub open spec fn listed_etfs_spec(etfs: Seq<Seq<char>>, rows: Seq<(Seq<char>, Option<CivilDate>, Option<CivilDate>)>, date: CivilDate) -> Seq<Seq<char>>
    decreases etfs.len(),
{
    if etfs.len() == 0 {
        Seq::empty()
    } else if listed_by_rows(rows, etfs.last(), date) {
        listed_etfs_spec(etfs.drop_last(), rows, date).push(etfs.last())
    } else {
        listed_etfs_spec(etfs.drop_last(), rows, date)
    }
}

fn listed_by(rows: &Vec<(String, Option<CivilDate>, Option<CivilDate>)>, sym: &str, date: CivilDate) -> (r: bool)
    ensures
        r == listed_by_rows(listings_view(rows@), sym@, date),
{
    let ghost lv = listings_view(rows@);
    let mut found: bool = false;
    let mut j: usize = 0;
    while j < rows.len()
        invariant
            0 <= j <= rows@.len(),
            lv == listings_view(rows@),
            found == listed_by_rows(lv.take(j as int), sym@, date),
        decreases rows.len() - j,
    {
        proof {
            assert(lv.take(j + 1).drop_last() =~= lv.take(j as int));
            assert(lv.take(j + 1).last() == listing_view(rows@[j as int]));
        }
        if str_eq(rows[j].0.as_str(), sym) {
            found = etf_listed_on(rows[j].1, rows[j].2, date);
        }
        j = j + 1;
    }
    proof {
        assert(lv.take(rows@.len() as int) =~= lv);
    }
    found
}

/// The configured ETFs that are listed on `date`, in configured order: only
/// those enter the allocation, so that weights and symbols stay aligned.
pub fn listed_etf_symbols(
    etf_symbols: &Vec<String>,
    rows: &Vec<(String, Option<CivilDate>, Option<CivilDate>)>,
    date: CivilDate,
) -> (r: Vec<String>)
    ensures
        strings_view(r@) == listed_etfs_spec(strings_view(etf_symbols@), listings_view(rows@), date),
{
    let ghost ev = strings_view(etf_symbols@);
    let mut out: Vec<String> = Vec::new();
    let mut i: usize = 0;
    while i < etf_symbols.len()
        invariant
            0 <= i <= etf_symbols@.len(),
            ev == strings_view(etf_symbols@),
            strings_view(out@) == listed_etfs_spec(ev.take(i as int), listings_view(rows@), date),
        decreases etf_symbols.len() - i,
    {
        proof {
            assert(ev.take(i + 1).drop_last() =~= ev.take(i as int));
            assert(ev.take(i + 1).last() == etf_symbols@[i as int]@);
        }
        if listed_by(rows, etf_symbols[i].as_str(), date) {
            let ghost prev = out@;
            out.push(etf_symbols[i].clone());
            proof {
                assert(strings_view(out@) =~= strings_view(prev).push(etf_symbols@[i as int]@));
            }
        }
        i = i + 1;
    }
    proof {
        assert(ev.take(etf_symbols@.len() as int) =~= ev);
    }
    out
}

/// Whether `s` occurs in `v`.
pub fn contains_str(v: &Vec<String>, s: &str) -> (r: bool)
    ensures
        r == strings_view(v@).contains(s@),
{
    let ghost sv = strings_view(v@);
    let mut i: usize = 0;
    while i < v.len()
        invariant
            0 <= i <= v@.len(),
            sv == strings_view(v@),
            forall|k: int| 0 <= k < i ==> sv[k] != s@,
        decreases v.len() - i,
    {
        if str_eq(v[i].as_str(), s) {
            assert(sv[i as int] == s@);
            return true;
        }
        i = i + 1;
    }
    proof {
        if sv.contains(s@) {
            let k = choose|k: int| 0 <= k < sv.len() && sv[k] == s@;
            assert(sv[k] != s@);
        }
    }
    false
}

/// A selected position: symbol, and whether both its quantity and market
/// value are positive.
pub open spec fn flagged_view(r: (String, bool)) -> (Seq<char>, bool) {
    (r.0@, r.1)
}

pub open spec fn flagged_views(v: Seq<(String, bool)>) -> Seq<(Seq<char>, bool)> {
    v.map_values(|r: (String, bool)| flagged_view(r))
}

/// The day's A-share target set: every selected symbol while buying is
/// barred, otherwise those with a positive quantity and market value.
pub open spec fn targets_spec(sel: Seq<(Seq<char>, bool)>, no_buy: bool) -> Seq<Seq<char>>
    decreases sel.len(),
{
    if sel.len() == 0 {
        Seq::empty()
    } else if no_buy || sel.last().1 {
        targets_spec(sel.drop_last(), no_buy).push(sel.last().0)
    } else {
        targets_spec(sel.drop_last(), no_buy)
    }
}

pub fn a_share_targets(selection: &Vec<(String, bool)>, no_buy: bool) -> (r: Vec<String>)
    ensures
        strings_view(r@) == targets_spec(flagged_views(selection@), no_buy),
{
    let ghost fv = flagged_views(selection@);
    let mut out: Vec<String> = Vec::new();
    let mut i: usize = 0;
    while i < selection.len()
        invariant
            0 <= i <= selection@.len(),
            fv == flagged_views(selection@),
            strings_view(out@) == targets_spec(fv.take(i as int), no_buy),
        decreases selection.len() - i,
    {
        proof {
            assert(fv.take(i + 1).drop_last() =~= fv.take(i as int));
            assert(fv.take(i + 1).last() == flagged_view(selection@[i as int]));
        }
        if no_buy || selection[i].1 {
            let ghost prev = out@;
            out.push(selection[i].0.clone());
            proof {
                assert(strings_view(out@) =~= strings_view(prev).push(selection@[i as int].0@));
            }
        }
        i = i + 1;
    }
    proof {
        assert(fv.take(selection@.len() as int) =~= fv);
    }
    out
}

/// The held symbols that the A-share clean-up sells in full: held with a
/// positive quantity, not a configured ETF (the ETF leg resizes those), and
/// not in the day's target set; in holding order.
pub open spec fn clearance_spec(held: Seq<(Seq<char>, bool)>, etfs: Seq<Seq<char>>, targets: Seq<Seq<char>>) -> Seq<Seq<char>>
    decreases held.len(),
{
    if held.len() == 0 {
        Seq::empty()
    } else if held.last().1 && !etfs.contains(held.last().0) && !targets.contains(held.last().0) {
        clearance_spec(held.drop_last(), etfs, targets).push(held.last().0)
    } else {
        clearance_spec(held.drop_last(), etfs, targets)
    }
}

proof fn lemma_clearance_members(held: Seq<(Seq<char>, bool)>, etfs: Seq<Seq<char>>, targets: Seq<Seq<char>>)
    ensures
        forall|k: int| 0 <= k < clearance_spec(held, etfs, targets).len() ==> {
            let x = #[trigger] clearance_spec(held, etfs, targets)[k];
            !etfs.contains(x) && !targets.contains(x)
        },
    decreases held.len(),
{
    if held.len() > 0 {
        let prev = clearance_spec(held.drop_last(), etfs, targets);
        lemma_clearance_members(held.drop_last(), etfs, targets);
        let cur = clearance_spec(held, etfs, targets);
        assert forall|k: int| 0 <= k < cur.len() implies !etfs.contains(#[trigger] cur[k]) && !targets.contains(cur[k]) by {
            if k < prev.len() {
                assert(cur[k] == prev[k]);
            }
        }
    }
}

/// The held symbols to clear. No configured ETF and no target of the day is
/// ever among them.
pub fn clearance_symbols(held: &Vec<(String, bool)>, etf_symbols: &Vec<String>, targets: &Vec<String>) -> (r: Vec<String>)
    ensures
        strings_view(r@) == clearance_spec(flagged_views(held@), strings_view(etf_symbols@), strings_view(targets@)),
        forall|k: int| 0 <= k < r@.len() ==> !strings_view(etf_symbols@).contains(#[trigger] r@[k]@),
        forall|k: int| 0 <= k < r@.len() ==> !strings_view(targets@).contains(#[trigger] r@[k]@),
{
    let ghost hv = flagged_views(held@);
    let ghost ev = strings_view(etf_symbols@);
    let ghost tv = strings_view(targets@);
    let mut out: Vec<String> = Vec::new();
    let mut i: usize = 0;
    while i < held.len()
        invariant
            0 <= i <= held@.len(),
            hv == flagged_views(held@),
            ev == strings_view(etf_symbols@),
            tv == strings_view(targets@),
            strings_view(out@) == clearance_spec(hv.take(i as int), ev, tv),
        decreases held.len() - i,
    {
        proof {
            assert(hv.take(i + 1).drop_last() =~= hv.take(i as int));
            assert(hv.take(i + 1).last() == flagged_view(held@[i as int]));
        }
        let sym = held[i].0.as_str();
        if held[i].1 && !contains_str(etf_symbols, sym) && !contains_str(targets, sym) {
            let ghost prev = out@;
            out.push(held[i].0.clone());
            proof {
                assert(strings_view(out@) =~= strings_view(prev).push(held@[i as int].0@));
            }
        }
        i = i + 1;
    }
    proof {
        assert(hv.take(held@.len() as int) =~= hv);
        lemma_clearance_members(hv, ev, tv);
        assert forall|k: int| 0 <= k < out@.len() implies !ev.contains(#[trigger] out@[k]@) && !tv.contains(out@[k]@) by {
            assert(strings_view(out@)[k] == out@[k]@);
        }
    }
    out
}

pub open spec fn empty_rebalance_msg(strategy_id: Seq<char>) -> Seq<char> {
    "建仓 0 笔:策略 "@ + strategy_id + " 当日已发行标的均无建仓,可能权益曲线/ETF价格数据缺失"@
}

/// A rebalance that placed no trade, selected no A share and holds nothing is
/// refused (it would report a performance that nothing backs); any other
/// outcome is not.
pub fn empty_rebalance_error(trades: usize, selection_empty: bool, holdings_empty: bool, strategy_id: &str) -> (r: Option<String>)
    ensures
        (trades == 0 && selection_empty && holdings_empty) ==> (r is Some && r->0@ == empty_rebalance_msg(strategy_id@)),
        !(trades == 0 && selection_empty && holdings_empty) ==> r is None,
{
    if trades == 0 && selection_empty && holdings_empty {
        let mut s = String::new();
        s.append("建仓 0 笔:策略 ");
        s.append(strategy_id);
        s.append(" 当日已发行标的均无建仓,可能权益曲线/ETF价格数据缺失");
        Some(s)
    } else {
        None
    }
}

} // verus!
