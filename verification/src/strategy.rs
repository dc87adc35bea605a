//! Strategy-tree enums, configuration defaults, and the merging of the strategy
//! table's rows into per-combo materialization settings and symbol sets.
use vstd::prelude::*;
use vstd::string::*;
use crate::ordered::{insert_sorted_unique, sorted_strict};
use crate::text::{opt_items, opt_str, str_eq, strings_view, trim, trimmed};

verus! {

/// The level of a strategy row: a multi-asset composite or a single asset.
#[derive(Debug, Clone, Copy, PartialEq, Eq, Structural)]
pub enum StrategyType {
    Composite,
    Asset,
}

impl StrategyType {
    /// The level of a row from its `strategy_type` column: `"asset"` is an
    /// asset strategy, anything else a composite.
    pub fn from_db(s: &str) -> (r: StrategyType)
        ensures
            r == (if s@ == "asset"@ { StrategyType::Asset } else { StrategyType::Composite }),
    {
        if str_eq(s, "asset") {
            StrategyType::Asset
        } else {
            StrategyType::Composite
        }
    }
}

/// The asset class of an asset strategy.
#[derive(Debug, Clone, Copy, PartialEq, Eq, Structural)]
pub enum AssetClass {
    AShare,
    UsStock,
    Bond,
    Cash,
    Commodity,
}

/// The asset class named by an `asset_class` column value.
pub open spec fn asset_class_spec(s: Seq<char>) -> Option<AssetClass> {
    if s == "a_share"@ {
        Some(AssetClass::AShare)
    } else if s == "us_stock"@ {
        Some(AssetClass::UsStock)
    } else if s == "bond"@ {
        Some(AssetClass::Bond)
    } else if s == "cash"@ {
        Some(AssetClass::Cash)
    } else if s == "commodity"@ {
        Some(AssetClass::Commodity)
    } else {
        None
    }
}

impl AssetClass {
    /// Reads an `asset_class` column value; an unknown value is an error
    /// `"非法 asset_class: {value}"`.
    pub fn from_db(s: &str) -> (r: Result<AssetClass, String>)
        ensures
            asset_class_spec(s@) matches Some(c) ==> r == Ok::<AssetClass, String>(c),
            asset_class_spec(s@) is None ==> (r is Err && r->Err_0@ == "非法 asset_class: "@
                + s@),
    {
        if str_eq(s, "a_share") {
            Ok(AssetClass::AShare)
        } else if str_eq(s, "us_stock") {
            Ok(AssetClass::UsStock)
        } else if str_eq(s, "bond") {
            Ok(AssetClass::Bond)
        } else if str_eq(s, "cash") {
            Ok(AssetClass::Cash)
        } else if str_eq(s, "commodity") {
            Ok(AssetClass::Commodity)
        } else {
            let mut e = String::from_str("非法 asset_class: ");
            e.append(s);
            Err(e)
        }
    }
}

// ───────────────────────── configuration defaults ─────────────────────────

/// Default `signal_source` of a strategy configuration.
pub fn default_signal_source() -> (r: String)
    ensures
        r@ == "prediction_blend"@,
{
    String::from_str("prediction_blend")
}

/// Default `combo_name` of a strategy configuration.
pub fn default_combo_name() -> (r: String)
    ensures
        r@ == "full_pit_icir_37f"@,
{
    String::from_str("full_pit_icir_37f")
}

/// Default `top_n` of a strategy configuration.
pub fn default_top_n() -> (r: i64)
    ensures
        r == 30,
{
    30
}

/// Default `score_candidate_pool_size` of a strategy configuration.
pub fn default_score_candidate_pool_size() -> (r: i64)
    ensures
        r == 200,
{
    200
}

/// Default `score_direction` of a strategy configuration.
pub fn default_score_direction() -> (r: String)
    ensures
        r@ == "descending"@,
{
    String::from_str("descending")
}

/// Default `candidate_tier` of a strategy configuration.
pub fn default_candidate_tier() -> (r: String)
    ensures
        r@ == "research_baseline"@,
{
    String::from_str("research_baseline")
}

/// Default `mvo_objective` of a strategy configuration.
pub fn default_mvo_objective() -> (r: String)
    ensures
        r@ == "minvariance"@,
{
    String::from_str("minvariance")
}

/// Default MVO lookback of the MVO backtest, in months.
pub fn default_mvo_lookback() -> (r: usize)
    ensures
        r == 36,
{
    36
}

/// Default number of stocks per MVO backtest.
pub fn default_top_n_mvo() -> (r: usize)
    ensures
        r == 20,
{
    20
}

/// Default MVO rebalance frequency of the experiment overlay.
pub fn default_rebalance_freq() -> (r: String)
    ensures
        r@ == "annual"@,
{
    String::from_str("annual")
}

/// Default MVO lookback of the experiment overlay, in years.
pub fn default_mvo_lookback_years() -> (r: i32)
    ensures
        r == 5,
{
    5
}

/// The four ETFs of the default MVO universe: gold, treasury bond, S&P 500, Nasdaq.
pub open spec fn default_etfs_spec() -> Seq<Seq<char>> {
    seq!["518880.SH"@, "511010.SH"@, "513500.SH"@, "513100.SH"@]
}

fn four_default_etfs() -> (r: Vec<String>)
    ensures
        strings_view(r@) == default_etfs_spec(),
{
    let mut v: Vec<String> = Vec::new();
    v.push(String::from_str("518880.SH"));
    v.push(String::from_str("511010.SH"));
    v.push(String::from_str("513500.SH"));
    v.push(String::from_str("513100.SH"));
    proof {
        assert(strings_view(v@) =~= default_etfs_spec());
    }
    v
}

/// Default ETF universe of the experiment overlay.
pub fn default_etf_symbols() -> (r: Vec<String>)
    ensures
        strings_view(r@) == default_etfs_spec(),
{
    four_default_etfs()
}

/// Default ETF universe of the MVO simulation.
pub fn mvo_sim_default_etfs() -> (r: Vec<String>)
    ensures
        strings_view(r@) == default_etfs_spec(),
{
    four_default_etfs()
}

/// Default MVO lookback of the MVO simulation, in months.
pub fn mvo_sim_default_lookback() -> (r: usize)
    ensures
        r == 36,
{
    36
}

/// Default rebalance frequency of the MVO simulation.
pub fn mvo_sim_default_rebalance() -> (r: String)
    ensures
        r@ == "quarterly"@,
{
    String::from_str("quarterly")
}

/// Default leverage mode of the MVO simulation.
pub fn mvo_sim_default_leverage_mode() -> (r: String)
    ensures
        r@ == "fixed"@,
{
    String::from_str("fixed")
}

/// The symbols whose prices the MVO needs: the CSI 300 index first, then the ETFs.
pub fn build_mvo_symbol_list(etf_symbols: &Vec<String>) -> (r: Vec<String>)
    ensures
        strings_view(r@) == seq!["000300.SH"@] + strings_view(etf_symbols@),
{
    let mut out: Vec<String> = Vec::new();
    out.push(String::from_str("000300.SH"));
    let mut i: usize = 0;
    while i < etf_symbols.len()
        invariant
            0 <= i <= etf_symbols@.len(),
            strings_view(out@) == seq!["000300.SH"@] + strings_view(etf_symbols@).take(i as int),
        decreases etf_symbols.len() - i,
    {
        let ghost before = out@;
        let item = etf_symbols[i].clone();
        out.push(item);
        proof {
            assert(strings_view(out@) =~= strings_view(before).push(etf_symbols@[i as int]@));
            assert(strings_view(etf_symbols@).take(i + 1) =~= strings_view(etf_symbols@).take(
                i as int,
            ).push(etf_symbols@[i as int]@));
            assert(strings_view(out@) =~= seq!["000300.SH"@] + strings_view(etf_symbols@).take(
                i + 1,
            ));
        }
        i = i + 1;
    }
    proof {
        assert(strings_view(etf_symbols@).take(etf_symbols@.len() as int) =~= strings_view(
            etf_symbols@,
        ));
    }
    out
}

// ───────────────────────── symbol and combo sets ─────────────────────────

/// Whether item `j` of row `i` is the symbol `x`.
pub open spec fn listed_at(rows: Seq<Option<Seq<Option<Seq<char>>>>>, i: int, j: int, x: Seq<char>) -> bool {
    0 <= i < rows.len() && rows[i] is Some && 0 <= j < rows[i]->0.len() && rows[i]->0[j] == Some(x)
}

/// The symbols listed by any row (`None` rows have no array; `None` items are
/// not strings).
pub open spec fn union_spec(rows: Seq<Option<Seq<Option<Seq<char>>>>>) -> Set<Seq<char>> {
    Set::new(|x: Seq<char>| exists|i: int, j: int| #[trigger] listed_at(rows, i, j, x))
}

pub open spec fn rows_view(rows: Seq<Option<Vec<Option<String>>>>) -> Seq<Option<Seq<Option<Seq<char>>>>> {
    rows.map_values(|r: Option<Vec<Option<String>>>| opt_items(r))
}

/// The symbols among the first `j` items of one row.
pub open spec fn items_prefix(iv: Seq<Option<Seq<char>>>, j: int) -> Set<Seq<char>> {
    Set::new(|x: Seq<char>| exists|k: int| 0 <= k < j && #[trigger] iv[k] == Some(x))
}

proof fn lemma_union_step(rv: Seq<Option<Seq<Option<Seq<char>>>>>, i: int)
    requires
        0 <= i < rv.len(),
    ensures
        union_spec(rv.take(i + 1)) == union_spec(rv.take(i)).union(
            match rv[i] {
                Some(iv) => items_prefix(iv, iv.len() as int),
                None => Set::empty(),
            },
        ),
{
    let t = rv.take(i + 1);
    let p = rv.take(i);
    let extra = match rv[i] {
        Some(iv) => items_prefix(iv, iv.len() as int),
        None => Set::empty(),
    };
    assert forall|x: Seq<char>| #[trigger] union_spec(t).contains(x) == (union_spec(p).contains(x)
        || extra.contains(x)) by {
        if union_spec(t).contains(x) {
            let (a, b) = choose|a: int, b: int| #[trigger] listed_at(t, a, b, x);
            if a < i {
                assert(listed_at(p, a, b, x));
            } else {
                assert(rv[i] == t[a]);
                assert(extra.contains(x));
            }
        }
        if union_spec(p).contains(x) {
            let (a, b) = choose|a: int, b: int| #[trigger] listed_at(p, a, b, x);
            assert(listed_at(t, a, b, x));
        }
        if extra.contains(x) {
            let iv = rv[i]->0;
            let k = choose|k: int| 0 <= k < iv.len() && #[trigger] iv[k] == Some(x);
            assert(listed_at(t, i, k, x));
        }
    }
    assert(union_spec(t) =~= union_spec(p).union(extra));
}

/// The union of the active composite strategies' ETF lists, sorted and without
/// duplicates; one row per strategy's `etf_symbols` array.
pub fn active_etf_symbols_union(rows: &Vec<Option<Vec<Option<String>>>>) -> (r: Vec<String>)
    ensures
        sorted_strict(strings_view(r@)),
        strings_view(r@).to_set() == union_spec(rows_view(rows@)),
{
    let ghost rv = rows_view(rows@);
    let mut out: Vec<String> = Vec::new();
    proof {
        assert(union_spec(rv.take(0)) =~= Set::<Seq<char>>::empty());
        assert(strings_view(out@).to_set() =~= Set::<Seq<char>>::empty());
    }
    let mut i: usize = 0;
    while i < rows.len()
        invariant
            0 <= i <= rows@.len(),
            rv == rows_view(rows@),
            sorted_strict(strings_view(out@)),
            strings_view(out@).to_set() == union_spec(rv.take(i as int)),
        decreases rows.len() - i,
    {
        let ghost before_set = union_spec(rv.take(i as int));
        proof {
            lemma_union_step(rv, i as int);
        }
        match &rows[i] {
            Some(items) => {
                let ghost iv = items@.map_values(|o: Option<String>| opt_str(o));
                proof {
                    assert(rv[i as int] == Some(iv));
                    assert(items_prefix(iv, 0) =~= Set::<Seq<char>>::empty());
                    assert(before_set.union(items_prefix(iv, 0)) =~= before_set);
                }
                let mut j: usize = 0;
                while j < items.len()
                    invariant
                        0 <= j <= items@.len(),
                        iv == items@.map_values(|o: Option<String>| opt_str(o)),
                        sorted_strict(strings_view(out@)),
                        strings_view(out@).to_set() == before_set.union(items_prefix(iv, j as int)),
                    decreases items.len() - j,
                {
                    let ghost cur = items_prefix(iv, j as int);
                    let ghost nxt = items_prefix(iv, j + 1);
                    proof {
                        assert forall|x: Seq<char>| #[trigger] nxt.contains(x) == (cur.contains(x)
                            || iv[j as int] == Some(x)) by {
                            if nxt.contains(x) {
                                let k = choose|k: int| 0 <= k < j + 1 && #[trigger] iv[k] == Some(x);
                                if k < j {
                                    assert(cur.contains(x));
                                }
                            }
                            if cur.contains(x) {
                                let k = choose|k: int| 0 <= k < j && #[trigger] iv[k] == Some(x);
                                assert(iv[k] == Some(x));
                            }
                        }
                    }
                    match &items[j] {
                        Some(sym) => {
                            insert_sorted_unique(&mut out, sym.clone());
                            proof {
                                assert(iv[j as int] == Some(sym@));
                                assert(nxt =~= cur.insert(sym@));
                                assert(strings_view(out@).to_set() =~= before_set.union(nxt));
                            }
                        },
                        None => {
                            proof {
                                assert(iv[j as int] is None);
                                assert(nxt =~= cur);
                            }
                        },
                    }
                    j = j + 1;
                }
            },
            None => {
                proof {
                    assert(rv[i as int] is None);
                    assert(before_set.union(Set::empty()) =~= before_set);
                }
            },
        }
        i = i + 1;
    }
    proof {
        assert(rv.take(rows@.len() as int) =~= rv);
    }
    out
}

/// Whether row `i` names the combo `x` (trimmed, non-empty).
pub open spec fn named_at(rows: Seq<Option<Seq<char>>>, i: int, x: Seq<char>) -> bool {
    0 <= i < rows.len() && rows[i] is Some && trimmed(rows[i]->0) == x && x.len() > 0
}

/// The non-empty trimmed combo names of the rows.
pub open spec fn combos_spec(rows: Seq<Option<Seq<char>>>) -> Set<Seq<char>> {
    Set::new(|x: Seq<char>| exists|i: int| #[trigger] named_at(rows, i, x))
}

proof fn lemma_combos_step(rv: Seq<Option<Seq<char>>>, i: int)
    requires
        0 <= i < rv.len(),
    ensures
        combos_spec(rv.take(i + 1)) == combos_spec(rv.take(i)).union(
            match rv[i] {
                Some(c) => if trimmed(c).len() > 0 {
                    set![trimmed(c)]
                } else {
                    Set::empty()
                },
                None => Set::empty(),
            },
        ),
{
    let t = rv.take(i + 1);
    let p = rv.take(i);
    let extra = match rv[i] {
        Some(c) => if trimmed(c).len() > 0 {
            set![trimmed(c)]
        } else {
            Set::empty()
        },
        None => Set::empty(),
    };
    assert forall|x: Seq<char>| #[trigger] combos_spec(t).contains(x) == (combos_spec(p).contains(x)
        || extra.contains(x)) by {
        if combos_spec(t).contains(x) {
            let a = choose|a: int| #[trigger] named_at(t, a, x);
            if a < i {
                assert(named_at(p, a, x));
            } else {
                assert(rv[i] == t[a]);
            }
        }
        if combos_spec(p).contains(x) {
            let a = choose|a: int| #[trigger] named_at(p, a, x);
            assert(named_at(t, a, x));
        }
        if extra.contains(x) {
            assert(named_at(t, i, x));
        }
    }
    assert(combos_spec(t) =~= combos_spec(p).union(extra));
}

/// The factor combos declared by active strategies (their `combo_name`
/// column), trimmed, without empty names, sorted and without duplicates.
pub fn active_factor_combos(rows: &Vec<Option<String>>) -> (r: Vec<String>)
    ensures
        sorted_strict(strings_view(r@)),
        strings_view(r@).to_set() == combos_spec(rows@.map_values(|o: Option<String>| opt_str(o))),
{
    let ghost rv = rows@.map_values(|o: Option<String>| opt_str(o));
    let mut out: Vec<String> = Vec::new();
    proof {
        assert(combos_spec(rv.take(0)) =~= Set::<Seq<char>>::empty());
        assert(strings_view(out@).to_set() =~= Set::<Seq<char>>::empty());
    }
    let mut i: usize = 0;
    while i < rows.len()
        invariant
            0 <= i <= rows@.len(),
            rv == rows@.map_values(|o: Option<String>| opt_str(o)),
            sorted_strict(strings_view(out@)),
            strings_view(out@).to_set() == combos_spec(rv.take(i as int)),
        decreases rows.len() - i,
    {
        let ghost before = combos_spec(rv.take(i as int));
        proof {
            lemma_combos_step(rv, i as int);
        }
        match &rows[i] {
            Some(c) => {
                proof {
                    assert(rv[i as int] == Some(c@));
                }
                let tc = trim(c.as_str());
                if tc.unicode_len() > 0 {
                    insert_sorted_unique(&mut out, tc.to_owned());
                    proof {
                        assert(before.union(set![tc@]) =~= before.insert(tc@));
                    }
                } else {
                    proof {
                        assert(before.union(Set::empty()) =~= before);
                    }
                }
            },
            None => {
                proof {
                    assert(before.union(Set::empty()) =~= before);
                }
            },
        }
        i = i + 1;
    }
    proof {
        assert(rv.take(rows@.len() as int) =~= rv);
    }
    out
}

} // verus!
