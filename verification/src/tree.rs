//! Resolution of a strategy tree from its table rows: the level of the main
//! row, the selection settings of each asset row with their defaults, and the
//! errors for an unknown asset class or a composite without assets.
//!
//! Only the text and integer columns are read here; the portfolio weights and
//! other decimal parameters are attached by the caller.
use vstd::prelude::*;
use vstd::string::*;
use crate::strategy::{asset_class_spec, AssetClass, StrategyType};

use crate::text::{strings_view, opt_str, string_items};
verus! {

/// The text and integer columns of one asset strategy row.
#[derive(Debug)]
pub struct AssetRowText {
    pub strategy_id: String,
    pub asset_class: String,
    pub signal_source: Option<String>,
    pub combo_name: Option<String>,
    pub top_n: Option<i32>,
    pub prediction_set_id: Option<String>,
    pub score_direction: Option<String>,
    pub candidate_tier: Option<String>,
    pub equity_curve_task_id: Option<String>,
    /// The `etf_symbols` array, item by item (`None` for an item that is not
    /// a string); `None` when the column is absent or not an array.
    pub etf_symbols: Option<Vec<Option<String>>>,
}

/// The security-selection settings of an asset strategy.
#[derive(Debug)]
pub struct SecuritySelection {
    pub signal_source: String,
    pub combo_name: String,
    pub top_n: i64,
    pub prediction_set_id: Option<String>,
    pub score_direction: String,
    pub candidate_tier: String,
    pub equity_curve_task_id: Option<String>,
    /// Fixed symbols of a `fixed` selection (the row's `etf_symbols`).
    pub fixed_symbols: Vec<String>,
}

/// An asset strategy of the tree.
#[derive(Debug)]
pub struct AssetSelection {
    pub strategy_id: String,
    pub asset_class: AssetClass,
    pub security: SecuritySelection,
}

/// The text columns of a strategy's main row.
#[derive(Debug)]
pub struct StrategyRowText {
    pub strategy_id: String,
    pub name: String,
    pub strategy_type: String,
    pub rebalance_freq: Option<String>,
    pub etf_symbols: Option<Vec<Option<String>>>,
}

/// A resolved strategy tree: a composite with its asset children, or a single
/// asset strategy holding itself as its one asset.
#[derive(Debug)]
pub struct StrategyTree {
    pub strategy_id: String,
    pub name: String,
    pub strategy_type: StrategyType,
    pub assets: Vec<AssetSelection>,
    /// The ETF columns of the portfolio, in the main row's order.
    pub etf_symbols: Vec<String>,
    pub rebalance_freq: String,
}

/// The strings of an array column (none when the column is not an array).
pub open spec fn array_strings(v: Option<Vec<Option<String>>>) -> Seq<Seq<char>> {
    match v {
        Some(items) => string_items(items@.map_values(|o: Option<String>| opt_str(o))),
        None => Seq::empty(),
    }
}

/// A text column's value, or `d` when it is null.
pub open spec fn text_or(o: Option<String>, d: Seq<char>) -> Seq<char> {
    match o {
        Some(s) => s@,
        None => d,
    }
}

/// The error for an asset row whose class is unknown.
pub open spec fn bad_class_msg(id: Seq<char>, class: Seq<char>) -> Seq<char> {
    "asset "@ + id + " ("@ + class + "): "@ + ("非法 asset_class: "@ + class)
}

/// What an asset row resolves to, given that its class is known.
pub open spec fn asset_resolved(a: AssetSelection, row: AssetRowText) -> bool {
    &&& a.strategy_id@ == row.strategy_id@
    &&& asset_class_spec(row.asset_class@) == Some(a.asset_class)
    &&& a.security.signal_source@ == text_or(row.signal_source, "fixed"@)
    &&& a.security.combo_name@ == text_or(row.combo_name, ""@)
    &&& a.security.top_n == (match row.top_n {
        Some(n) => n as i64,
        None => 30i64,
    })
    &&& opt_str(a.security.prediction_set_id) == opt_str(row.prediction_set_id)
    &&& a.security.score_direction@ == text_or(row.score_direction, "descending"@)
    &&& a.security.candidate_tier@ == text_or(row.candidate_tier, "research_baseline"@)
    &&& opt_str(a.security.equity_curve_task_id) == opt_str(row.equity_curve_task_id)
    &&& strings_view(a.security.fixed_symbols@) == array_strings(row.etf_symbols)
}

/// The first row (in order) whose asset class is unknown.
pub open spec fn first_bad_row(rows: Seq<AssetRowText>) -> Option<int>
    decreases rows.len(),
{
    if rows.len() == 0 {
        None
    } else {
        match first_bad_row(rows.drop_last()) {
            Some(i) => Some(i),
            None => if asset_class_spec(rows.last().asset_class@) is None {
                Some(rows.len() - 1)
            } else {
                None
            },
        }
    }
}

proof fn lemma_first_bad_row(rows: Seq<AssetRowText>)
    ensures
        first_bad_row(rows) is None <==> forall|k: int| 0 <= k < rows.len()
            ==> asset_class_spec(#[trigger] rows[k].asset_class@) is Some,
        first_bad_row(rows) matches Some(i) ==> 0 <= i < rows.len()
            && asset_class_spec(rows[i].asset_class@) is None
            && forall|k: int| 0 <= k < i ==> asset_class_spec(#[trigger] rows[k].asset_class@) is Some,
    decreases rows.len(),
{
    if rows.len() > 0 {
        let p = rows.drop_last();
        lemma_first_bad_row(p);
        assert forall|k: int| 0 <= k < p.len() implies #[trigger] p[k] == rows[k] by {}
        if first_bad_row(p) is None {
            assert forall|k: int| 0 <= k < rows.len() - 1 implies asset_class_spec(
                #[trigger] rows[k].asset_class@,
            ) is Some by {
                assert(p[k] == rows[k]);
            }
        } else {
            let i = first_bad_row(p)->0;
            assert(p[i] == rows[i]);
            assert forall|k: int| 0 <= k < i implies asset_class_spec(
                #[trigger] rows[k].asset_class@,
            ) is Some by {
                assert(p[k] == rows[k]);
            }
        }
    }
}

/// The strings of an array column, in order: items that are not strings are
/// skipped, and a column that is not an array gives no strings.
pub fn parse_str_array(v: &Option<Vec<Option<String>>>) -> (r: Vec<String>)
    ensures
        strings_view(r@) == array_strings(*v),
{
    let mut out: Vec<String> = Vec::new();
    match v {
        None => {
            assert(strings_view(out@) =~= Seq::<Seq<char>>::empty());
        },
        Some(items) => {
            let ghost iv = items@.map_values(|o: Option<String>| opt_str(o));
            let mut i: usize = 0;
            assert(strings_view(out@) =~= string_items(iv.take(0)));
            while i < items.len()
                invariant
                    0 <= i <= items@.len(),
                    iv == items@.map_values(|o: Option<String>| opt_str(o)),
                    strings_view(out@) == string_items(iv.take(i as int)),
                decreases items@.len() - i,
            {
                proof {
                    assert(iv.take(i + 1).drop_last() =~= iv.take(i as int));
                    assert(iv.take(i + 1).last() == iv[i as int]);
                }
                match &items[i] {
                    Some(s) => {
                        out.push(s.clone());
                        assert(strings_view(out@) =~= string_items(iv.take(i as int)).push(
                            s@,
                        ));
                    },
                    None => {},
                }
                i = i + 1;
            }
            assert(iv.take(items@.len() as int) =~= iv);
        },
    }
    out
}

fn text_or_else(o: Option<String>, d: &str) -> (r: String)
    ensures
        r@ == text_or(o, d@),
{
    match o {
        Some(s) => s,
        None => String::from_str(d),
    }
}

/// Resolves one asset row: its class must be known, and each null setting
/// takes its default (`fixed` selection, empty combo, 30 names, descending
/// scores, the `research_baseline` tier). An unknown class is the error
/// `"asset {id} ({class}): 非法 asset_class: {class}"`.
pub fn build_asset_strategy(row: AssetRowText) -> (r: Result<AssetSelection, String>)
    ensures
        asset_class_spec(row.asset_class@) is None <==> r is Err,
        r matches Err(e) ==> e@ == bad_class_msg(row.strategy_id@, row.asset_class@),
        r matches Ok(a) ==> asset_resolved(a, row),
{
    let ghost row0 = row;
    let fixed_symbols = parse_str_array(&row.etf_symbols);
    let asset_class = match AssetClass::from_db(row.asset_class.as_str()) {
        Ok(c) => c,
        Err(e) => {
            let mut m = String::from_str("asset ");
            m.append(row.strategy_id.as_str());
            m.append(" (");
            m.append(row.asset_class.as_str());
            m.append("): ");
            m.append(e.as_str());
            assert(m@ =~= bad_class_msg(row.strategy_id@, row.asset_class@));
            return Err(m);
        },
    };
    let top_n: i64 = match row.top_n {
        Some(n) => n as i64,
        None => 30,
    };
    let security = SecuritySelection {
        signal_source: text_or_else(row.signal_source, "fixed"),
        combo_name: text_or_else(row.combo_name, ""),
        top_n,
        prediction_set_id: row.prediction_set_id,
        score_direction: text_or_else(row.score_direction, "descending"),
        candidate_tier: text_or_else(row.candidate_tier, "research_baseline"),
        equity_curve_task_id: row.equity_curve_task_id,
        fixed_symbols,
    };
    Ok(AssetSelection { strategy_id: row.strategy_id, asset_class, security })
}

/// Resolves asset rows in order; the first row with an unknown class gives
/// its error.
pub fn build_asset_strategies(rows: Vec<AssetRowText>) -> (r: Result<Vec<AssetSelection>, String>)
    ensures
        first_bad_row(rows@) is None <==> r is Ok,
        r matches Err(e) ==> (first_bad_row(rows@) matches Some(i) && e@ == bad_class_msg(
            rows@[i].strategy_id@,
            rows@[i].asset_class@,
        )),
        r matches Ok(v) ==> v@.len() == rows@.len() && forall|k: int|
            0 <= k < v@.len() ==> asset_resolved(#[trigger] v@[k], rows@[k]),
{
    let ghost all = rows@;
    let ghost n = rows@.len();
    proof {
        lemma_first_bad_row(all);
    }
    let mut rest = rows;
    let len0 = rest.len();
    assert(len0 == n);
    let mut out: Vec<AssetSelection> = Vec::new();
    let mut i: usize = 0;
    while rest.len() > 0
        invariant
            n == all.len(),
            all == rows@,
            n <= usize::MAX,
            i + rest@.len() == n,
            rest@ == all.skip(i as int),
            out@.len() == i,
            forall|k: int| 0 <= k < i ==> asset_resolved(#[trigger] out@[k], all[k]),
            forall|k: int| 0 <= k < i ==> asset_class_spec(#[trigger] all[k].asset_class@) is Some,
            first_bad_row(all) is None <==> forall|k: int| 0 <= k < all.len()
                ==> asset_class_spec(#[trigger] all[k].asset_class@) is Some,
            first_bad_row(all) matches Some(j) ==> 0 <= j < all.len()
                && asset_class_spec(all[j].asset_class@) is None
                && forall|k: int| 0 <= k < j ==> asset_class_spec(#[trigger] all[k].asset_class@) is Some,
        decreases rest.len(),
    {
        let row = rest.remove(0);
        proof {
            assert(all.skip(i as int)[0] == row);
            assert(all[i as int] == row);
            assert(rest@ =~= all.skip(i + 1));
        }
        match build_asset_strategy(row) {
            Ok(a) => {
                out.push(a);
                i = i + 1;
            },
            Err(e) => {
                proof {
                    assert(all[i as int] == row);
                    assert(asset_class_spec(all[i as int].asset_class@) is None);
                    assert(first_bad_row(all) is Some);
                    let j = first_bad_row(all)->0;
                    if j < i {
                        assert(asset_class_spec(all[j].asset_class@) is Some);
                    } else if j > i {
                        assert(asset_class_spec(all[i as int].asset_class@) is Some);
                    }
                    assert(j == i);
                }
                assert(first_bad_row(all) == Some(i as int));
                return Err(e);
            },
        }
    }
    Ok(out)
}

/// How a main row's header resolves.
pub open spec fn tree_header(t: StrategyTree, main: StrategyRowText) -> bool {
    &&& t.strategy_id@ == main.strategy_id@
    &&& t.name@ == main.name@
    &&& t.strategy_type == (if main.strategy_type@ == "asset"@ {
        StrategyType::Asset
    } else {
        StrategyType::Composite
    })
    &&& strings_view(t.etf_symbols@) == array_strings(main.etf_symbols)
    &&& t.rebalance_freq@ == text_or(main.rebalance_freq, "quarterly"@)
}

/// Resolves the strategy `strategy_id` from its active main row and asset
/// rows. A missing main row is `"strategy not found: {id}"`. An asset
/// strategy holds its own row (`own_row`; missing: `"asset row not found:
/// {id}"`); a composite holds its active children (`child_rows`), and none at
/// all is `"composite 无资产子策略: {id}"`. An unknown asset class is the error
/// of the first such row. The rebalance frequency defaults to `quarterly`.
pub fn resolve_strategy_tree(
    strategy_id: &str,
    main: Option<StrategyRowText>,
    own_row: Option<AssetRowText>,
    child_rows: Vec<AssetRowText>,
) -> (r: Result<StrategyTree, String>)
    ensures
        main is None ==> (r is Err && r->Err_0@ == "strategy not found: "@ + strategy_id@),
        main is Some && main->0.strategy_type@ == "asset"@ && own_row is None ==> (r is Err
            && r->Err_0@ == "asset row not found: "@ + strategy_id@),
        main is Some && main->0.strategy_type@ == "asset"@ && own_row is Some
            && asset_class_spec(own_row->0.asset_class@) is None ==> (r is Err && r->Err_0@
            == bad_class_msg(own_row->0.strategy_id@, own_row->0.asset_class@)),
        main is Some && main->0.strategy_type@ == "asset"@ && own_row is Some
            && asset_class_spec(own_row->0.asset_class@) is Some ==> (r is Ok && tree_header(
            r->Ok_0,
            main->0,
        ) && r->Ok_0.assets@.len() == 1 && asset_resolved(r->Ok_0.assets@[0], own_row->0)),
        main is Some && main->0.strategy_type@ != "asset"@ && first_bad_row(child_rows@) is Some
            ==> (r is Err && r->Err_0@ == bad_class_msg(
            child_rows@[first_bad_row(child_rows@)->0].strategy_id@,
            child_rows@[first_bad_row(child_rows@)->0].asset_class@,
        )),
        main is Some && main->0.strategy_type@ != "asset"@ && first_bad_row(child_rows@) is None
            && child_rows@.len() == 0 ==> (r is Err && r->Err_0@ == "composite 无资产子策略: "@
            + strategy_id@),
        main is Some && main->0.strategy_type@ != "asset"@ && first_bad_row(child_rows@) is None
            && child_rows@.len() > 0 ==> (r is Ok && tree_header(r->Ok_0, main->0)
            && r->Ok_0.assets@.len() == child_rows@.len() && forall|k: int|
            0 <= k < child_rows@.len() ==> asset_resolved(
                #[trigger] r->Ok_0.assets@[k],
                child_rows@[k],
            )),
{
    let m = match main {
        None => {
            let mut e = String::from_str("strategy not found: ");
            e.append(strategy_id);
            return Err(e);
        },
        Some(m) => m,
    };
    let stype = StrategyType::from_db(m.strategy_type.as_str());
    let assets = match stype {
        StrategyType::Asset => match own_row {
            None => {
                let mut e = String::from_str("asset row not found: ");
                e.append(strategy_id);
                return Err(e);
            },
            Some(a) => match build_asset_strategy(a) {
                Err(e) => return Err(e),
                Ok(x) => {
                    let mut v: Vec<AssetSelection> = Vec::new();
                    v.push(x);
                    v
                },
            },
        },
        StrategyType::Composite => {
            let v = match build_asset_strategies(child_rows) {
                Err(e) => return Err(e),
                Ok(v) => v,
            };
            if v.len() == 0 {
                let mut e = String::from_str("composite 无资产子策略: ");
                e.append(strategy_id);
                return Err(e);
            }
            v
        },
    };
    let etf_symbols = parse_str_array(&m.etf_symbols);
    let rebalance_freq = text_or_else(m.rebalance_freq, "quarterly");
    Ok(StrategyTree {
        strategy_id: m.strategy_id,
        name: m.name,
        strategy_type: stype,
        assets,
        etf_symbols,
        rebalance_freq,
    })
}

/// Whether the tree holds an a-share asset.
pub open spec fn has_a_share(assets: Seq<AssetSelection>) -> bool {
    exists|k: int| 0 <= k < assets.len() && (#[trigger] assets[k]).asset_class == AssetClass::AShare
}

/// Where the flat configuration of a composite takes its selection settings
/// from: the first a-share asset. A tree without portfolio parameters
/// (`has_mvo` false) is `"策略 {id} 缺 mvo 配置"`, one without an a-share
/// asset `"策略 {id} 缺 a_share asset"`.
pub fn a_share_asset_index(tree: &StrategyTree, has_mvo: bool) -> (r: Result<usize, String>)
    ensures
        !has_mvo ==> (r is Err && r->Err_0@ == "策略 "@ + tree.strategy_id@ + " 缺 mvo 配置"@),
        has_mvo && !has_a_share(tree.assets@) ==> (r is Err && r->Err_0@ == "策略 "@
            + tree.strategy_id@ + " 缺 a_share asset"@),
        has_mvo && has_a_share(tree.assets@) ==> (r is Ok && r->Ok_0 < tree.assets@.len()
            && tree.assets@[r->Ok_0 as int].asset_class == AssetClass::AShare && forall|k: int|
            0 <= k < r->Ok_0 ==> (#[trigger] tree.assets@[k]).asset_class != AssetClass::AShare),
{
    if !has_mvo {
        let mut e = String::from_str("策略 ");
        e.append(tree.strategy_id.as_str());
        e.append(" 缺 mvo 配置");
        return Err(e);
    }
    let mut i: usize = 0;
    while i < tree.assets.len()
        invariant
            has_mvo,
            0 <= i <= tree.assets@.len(),
            forall|k: int| 0 <= k < i ==> (#[trigger] tree.assets@[k]).asset_class
                != AssetClass::AShare,
        decreases tree.assets@.len() - i,
    {
        if tree.assets[i].asset_class == AssetClass::AShare {
            return Ok(i);
        }
        i = i + 1;
    }
    let mut e = String::from_str("策略 ");
    e.append(tree.strategy_id.as_str());
    e.append(" 缺 a_share asset");
    Err(e)
}

} // verus!
