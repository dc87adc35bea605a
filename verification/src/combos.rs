//! Materialization settings of the factor combos that active strategies declare:
//! one setting per combo name, merged over every strategy row that declares it.
use vstd::prelude::*;
use vstd::string::*;
use crate::ordered::{lemma_lt_irreflexive, lemma_lt_total, lemma_lt_transitive, seq_lt, str_lt};
use crate::text::{starts_with, str_eq, trim, trimmed, has_prefix};

verus! {

/// One `strategy_config` row's combo settings, as read from the table.
#[derive(Debug)]
pub struct ComboConfigRow {
    pub combo_name: Option<String>,
    pub include_fundamentals: Option<bool>,
    /// The `factor_whitelist` array; `None` when absent or not an array.
    pub factor_whitelist: Option<Vec<String>>,
    pub combo_horizon: Option<i16>,
    pub ind_neutral: bool,
    pub materialize_mode: String,
}

/// The merged materialization settings of one factor combo.
#[derive(Debug)]
pub struct ComboMaterializeConfig {
    pub combo_name: String,
    pub include_fundamentals: bool,
    /// Factor whitelist; `None` materializes with the default blacklist.
    pub factor_whitelist: Option<Vec<String>>,
    /// Explicit horizon (`combo_horizon` column).
    pub combo_horizon: Option<i16>,
    /// Industry-neutral materialization.
    pub ind_neutral: bool,
    /// `pit` (regular PIT materialization) or `phase7_backfill`.
    pub materialize_mode: String,
}

/// The settings of a combo as values.
pub ghost struct ComboSettings {
    pub name: Seq<char>,
    pub include_fundamentals: bool,
    pub whitelist: Option<Seq<Seq<char>>>,
    pub horizon: Option<i16>,
    pub ind_neutral: bool,
    pub mode: Seq<char>,
}

/// A row's settings as values.
pub ghost struct RowSettings {
    pub name: Option<Seq<char>>,
    pub include_fundamentals: Option<bool>,
    pub whitelist: Option<Seq<Seq<char>>>,
    pub horizon: Option<i16>,
    pub ind_neutral: bool,
    pub mode: Seq<char>,
}

pub open spec fn list_view(v: Option<Vec<String>>) -> Option<Seq<Seq<char>>> {
    match v {
        Some(v) => Some(v@.map_values(|s: String| s@)),
        None => None,
    }
}

pub open spec fn settings_of(c: ComboMaterializeConfig) -> ComboSettings {
    ComboSettings {
        name: c.combo_name@,
        include_fundamentals: c.include_fundamentals,
        whitelist: list_view(c.factor_whitelist),
        horizon: c.combo_horizon,
        ind_neutral: c.ind_neutral,
        mode: c.materialize_mode@,
    }
}

pub open spec fn row_of(r: ComboConfigRow) -> RowSettings {
    RowSettings {
        name: match r.combo_name {
            Some(n) => Some(n@),
            None => None,
        },
        include_fundamentals: r.include_fundamentals,
        whitelist: list_view(r.factor_whitelist),
        horizon: r.combo_horizon,
        ind_neutral: r.ind_neutral,
        mode: r.materialize_mode@,
    }
}

/// The settings of a combo that no row has touched yet.
pub open spec fn initial_settings(name: Seq<char>) -> ComboSettings {
    ComboSettings {
        name,
        include_fundamentals: false,
        whitelist: None,
        horizon: None,
        ind_neutral: false,
        mode: "pit"@,
    }
}

/// Merging one more declaring row: fundamentals and industry neutrality are on
/// when any row turns them on; the mode becomes `phase7_backfill` when any row
/// asks for it; the first non-empty whitelist and the first horizon are kept.
pub open spec fn merge_row(c: ComboSettings, r: RowSettings) -> ComboSettings {
    ComboSettings {
        name: c.name,
        include_fundamentals: c.include_fundamentals || r.include_fundamentals == Some(true),
        whitelist: if c.whitelist is None && r.whitelist is Some {
            r.whitelist
        } else {
            c.whitelist
        },
        horizon: if c.horizon is None {
            r.horizon
        } else {
            c.horizon
        },
        ind_neutral: c.ind_neutral || r.ind_neutral,
        mode: if c.mode == "pit"@ && r.mode == "phase7_backfill"@ {
            r.mode
        } else {
            c.mode
        },
    }
}

/// The merged settings of every combo the rows declare, keyed by the trimmed
/// combo name; rows without a name, or with a blank one, are ignored.
pub open spec fn merged(rows: Seq<RowSettings>) -> Map<Seq<char>, ComboSettings>
    decreases rows.len(),
{
    if rows.len() == 0 {
        Map::empty()
    } else {
        let m = merged(rows.drop_last());
        let r = rows.last();
        match r.name {
            None => m,
            Some(n) => {
                let k = trimmed(n);
                if k.len() == 0 {
                    m
                } else {
                    let base = if m.contains_key(k) {
                        m[k]
                    } else {
                        initial_settings(k)
                    };
                    m.insert(k, merge_row(base, r))
                }
            },
        }
    }
}

/// The result lists exactly the merged combos, each once, in ascending name order.
pub open spec fn lists_merged(v: Seq<ComboSettings>, m: Map<Seq<char>, ComboSettings>) -> bool {
    &&& forall|i: int, j: int| 0 <= i < j < v.len() ==> seq_lt(#[trigger] v[i].name, #[trigger] v[j].name)
    &&& forall|i: int| 0 <= i < v.len() ==> #[trigger] m.contains_key(v[i].name) && m[v[i].name] == v[i]
    &&& forall|k: Seq<char>| #[trigger] m.contains_key(k) ==> exists|i: int| 0 <= i < v.len() && #[trigger] v[i].name == k
}

pub open spec fn settings_seq(v: Seq<ComboMaterializeConfig>) -> Seq<ComboSettings> {
    v.map_values(|c: ComboMaterializeConfig| settings_of(c))
}

pub open spec fn rows_seq(v: Seq<ComboConfigRow>) -> Seq<RowSettings> {
    v.map_values(|r: ComboConfigRow| row_of(r))
}

fn merge_one(c: ComboMaterializeConfig, r: ComboConfigRow) -> (o: ComboMaterializeConfig)
    ensures
        settings_of(o) == merge_row(settings_of(c), row_of(r)),
{
    let mut c = c;
    let r = r;
    let inc = match r.include_fundamentals {
        Some(b) => b,
        None => false,
    };
    if inc {
        c.include_fundamentals = true;
    }
    if r.ind_neutral {
        c.ind_neutral = true;
    }
    if str_eq(c.materialize_mode.as_str(), "pit") && str_eq(
        r.materialize_mode.as_str(),
        "phase7_backfill",
    ) {
        c.materialize_mode = r.materialize_mode;
    }
    if c.factor_whitelist.is_none() && r.factor_whitelist.is_some() {
        c.factor_whitelist = r.factor_whitelist;
    }
    if c.combo_horizon.is_none() {
        c.combo_horizon = r.combo_horizon;
    }
    c
}

/// Merges the active strategies' combo rows into one setting per combo name,
/// in ascending name order (the order of a `BTreeMap` keyed by name).
pub fn merge_combo_materialize_configs(rows: Vec<ComboConfigRow>) -> (r: Vec<ComboMaterializeConfig>)
    ensures
        lists_merged(settings_seq(r@), merged(rows_seq(rows@))),
{
    let ghost all = rows_seq(rows@);
    let ghost n = rows@.len();
    let mut rows = rows;
    let len0 = rows.len();
    assert(len0 == n);
    let mut out: Vec<ComboMaterializeConfig> = Vec::new();
    let mut i: usize = 0;
    while rows.len() > 0
        invariant
            n == all.len(),
            n <= usize::MAX,
            i + rows@.len() == n,
            rows_seq(rows@) == all.skip(i as int),
            lists_merged(settings_seq(out@), merged(all.take(i as int))),
        decreases rows.len(),
    {
        let ghost before_rows = rows@;
        let row = rows.remove(0);
        let ghost rv = row_of(row);
        let ghost m = merged(all.take(i as int));
        proof {
            assert(all.skip(i as int)[0] == rv);
            assert(all.take(i + 1).drop_last() =~= all.take(i as int));
            assert(all.take(i + 1).last() == rv);
            assert(rows@ =~= before_rows.drop_first());
            assert(rows_seq(rows@) =~= rows_seq(before_rows).drop_first());
            assert(all.skip(i as int).drop_first() =~= all.skip(i + 1));
        }
        let key: Option<String> = match &row.combo_name {
            Some(nm) => {
                let t = trim(nm.as_str());
                if t.unicode_len() > 0 {
                    Some(t.to_owned())
                } else {
                    None
                }
            },
            None => None,
        };
        match key {
            None => {
                proof {
                    assert(merged(all.take(i + 1)) == m);
                }
            },
            Some(k) => {
                let ghost sv = settings_seq(out@);
                let mut p: usize = 0;
                while p < out.len() && str_lt(out[p].combo_name.as_str(), k.as_str())
                    invariant
                        0 <= p <= out@.len(),
                        sv == settings_seq(out@),
                        forall|q: int| 0 <= q < p ==> seq_lt(#[trigger] sv[q].name, k@),
                    decreases out.len() - p,
                {
                    p = p + 1;
                }
                let found = p < out.len() && str_eq(out[p].combo_name.as_str(), k.as_str());
                let ghost nm = merged(all.take(i + 1));
                proof {
                    assert(nm == m.insert(k@, merge_row(if m.contains_key(k@) { m[k@] } else { initial_settings(k@) }, rv)));
                    if p < out@.len() && !found {
                        lemma_lt_total(sv[p as int].name, k@);
                        assert(seq_lt(k@, sv[p as int].name));
                    }
                    assert forall|q: int| p <= q < sv.len() && !(q == p && found) implies seq_lt(
                        k@,
                        #[trigger] sv[q].name,
                    ) by {
                        if found {
                            assert(sv[p as int].name == k@);
                        } else {
                            lemma_lt_total(sv[p as int].name, k@);
                        }
                        if q > p && !found {
                            lemma_lt_transitive(k@, sv[p as int].name, sv[q].name);
                        }
                    }
                }
                if found {
                    let entry = out.remove(p);
                    proof {
                        assert(sv[p as int].name == k@);
                        assert(m.contains_key(k@) && m[k@] == sv[p as int]);
                    }
                    let updated = merge_one(entry, row);
                    out.insert(p, updated);
                    proof {
                        let nv = settings_seq(out@);
                        assert(nv =~= sv.update(p as int, merge_row(sv[p as int], rv)));
                        assert forall|a: int, b: int| 0 <= a < b < nv.len() implies seq_lt(
                            #[trigger] nv[a].name,
                            #[trigger] nv[b].name,
                        ) by {
                            assert(nv[a].name == sv[a].name);
                            assert(nv[b].name == sv[b].name);
                        }
                        assert forall|a: int| 0 <= a < nv.len() implies #[trigger] nm.contains_key(
                            nv[a].name,
                        ) && nm[nv[a].name] == nv[a] by {
                            if a == p {
                                assert(nv[a] == merge_row(sv[p as int], rv));
                                assert(nv[a].name == k@);
                                assert(nm[k@] == merge_row(m[k@], rv));
                            } else {
                                assert(nv[a] == sv[a]);
                                if a < p {
                                    assert(seq_lt(sv[a].name, k@));
                                } else {
                                    assert(seq_lt(k@, sv[a].name));
                                }
                                lemma_lt_irreflexive(k@);
                                assert(sv[a].name != k@);
                                assert(nm[sv[a].name] == m[sv[a].name]);
                            }
                        }
                        assert forall|kk: Seq<char>| #[trigger] nm.contains_key(kk) implies exists|
                            a: int,
                        | 0 <= a < nv.len() && #[trigger] nv[a].name == kk by {
                            if kk == k@ {
                                assert(nv[p as int].name == kk);
                            } else {
                                assert(m.contains_key(kk));
                                let a = choose|a: int| 0 <= a < sv.len() && #[trigger] sv[a].name == kk;
                                assert(nv[a].name == kk);
                            }
                        }
                    }
                } else {
                    let fresh = ComboMaterializeConfig {
                        combo_name: k,
                        include_fundamentals: false,
                        factor_whitelist: None,
                        combo_horizon: None,
                        ind_neutral: false,
                        materialize_mode: String::from_str("pit"),
                    };
                    proof {
                        assert(settings_of(fresh) == initial_settings(k@));
                        if m.contains_key(k@) {
                            let a = choose|a: int| 0 <= a < sv.len() && #[trigger] sv[a].name == k@;
                            if a < p {
                                assert(seq_lt(sv[a].name, k@));
                                lemma_lt_irreflexive(k@);
                            } else {
                                assert(seq_lt(k@, sv[a].name));
                                lemma_lt_irreflexive(k@);
                            }
                        }
                        assert(!m.contains_key(k@));
                    }
                    let updated = merge_one(fresh, row);
                    out.insert(p, updated);
                    proof {
                        let nv = settings_seq(out@);
                        let e = merge_row(initial_settings(k@), rv);
                        assert(nv =~= sv.insert(p as int, e));
                        assert forall|a: int, b: int| 0 <= a < b < nv.len() implies seq_lt(
                            #[trigger] nv[a].name,
                            #[trigger] nv[b].name,
                        ) by {
                            if b < p {
                            } else if b == p {
                            } else if a < p {
                                assert(nv[b].name == sv[b - 1].name);
                                lemma_lt_transitive(nv[a].name, k@, nv[b].name);
                            } else if a == p {
                                assert(nv[b].name == sv[b - 1].name);
                            } else {
                                assert(nv[a].name == sv[a - 1].name);
                                assert(nv[b].name == sv[b - 1].name);
                            }
                        }
                        assert forall|a: int| 0 <= a < nv.len() implies #[trigger] nm.contains_key(
                            nv[a].name,
                        ) && nm[nv[a].name] == nv[a] by {
                            if a == p {
                                assert(nv[a] == e);
                                assert(nm[k@] == e);
                            } else {
                                let oa = if a < p { a } else { a - 1 };
                                assert(0 <= oa < sv.len());
                                assert(lists_merged(sv, m));
                                assert(nv[a] == sv[oa]);
                                if oa < p {
                                    assert(seq_lt(sv[oa].name, k@));
                                } else {
                                    assert(seq_lt(k@, sv[oa].name));
                                }
                                lemma_lt_irreflexive(k@);
                                assert(sv[oa].name != k@);
                                assert(m.contains_key(sv[oa].name));
                                assert(m[sv[oa].name] == sv[oa]);
                                assert(nm[sv[oa].name] == m[sv[oa].name]);
                            }
                        }
                        assert forall|kk: Seq<char>| #[trigger] nm.contains_key(kk) implies exists|
                            a: int,
                        | 0 <= a < nv.len() && #[trigger] nv[a].name == kk by {
                            if kk == k@ {
                                assert(nv[p as int].name == kk);
                            } else {
                                assert(m.contains_key(kk));
                                let a = choose|a: int| 0 <= a < sv.len() && #[trigger] sv[a].name == kk;
                                if a < p {
                                    assert(nv[a].name == kk);
                                } else {
                                    assert(nv[a + 1].name == kk);
                                }
                            }
                        }
                    }
                }
            },
        }
        i = i + 1;
    }
    proof {
        assert(all.take(n as int) =~= all);
    }
    out
}

/// Whether a row declares the combo `k` (its trimmed name).
pub open spec fn declares(r: RowSettings, k: Seq<char>) -> bool {
    r.name is Some && trimmed(r.name->0) == k
}

/// What a row asks of its combo: 0 nothing (mere declaration), 1 fundamentals,
/// 2 industry neutrality, 3 the phase7 backfill mode.
pub open spec fn row_has(r: RowSettings, what: int) -> bool {
    if what == 1 {
        r.include_fundamentals == Some(true)
    } else if what == 2 {
        r.ind_neutral
    } else if what == 3 {
        r.mode == "phase7_backfill"@
    } else {
        true
    }
}

/// Some row declaring `k` asks for `what`.
pub open spec fn declared_with(rows: Seq<RowSettings>, k: Seq<char>, what: int) -> bool {
    exists|i: int| 0 <= i < rows.len() && declares(#[trigger] rows[i], k) && row_has(rows[i], what)
}

proof fn lemma_declared_step(rows: Seq<RowSettings>)
    requires
        rows.len() > 0,
    ensures
        forall|k: Seq<char>, what: int| #[trigger] declared_with(rows, k, what) == (declared_with(
            rows.drop_last(),
            k,
            what,
        ) || (declares(rows.last(), k) && row_has(rows.last(), what))),
{
    let p = rows.drop_last();
    let r = rows.last();
    assert forall|k: Seq<char>, what: int| #[trigger] declared_with(rows, k, what) == (declared_with(p, k, what) || (declares(r, k) && row_has(r, what))) by {
        if declared_with(rows, k, what) {
            let i = choose|i: int| 0 <= i < rows.len() && declares(#[trigger] rows[i], k) && row_has(rows[i], what);
            if i < p.len() {
                assert(p[i] == rows[i]);
            } else {
                assert(rows[i] == r);
            }
        }
        if declared_with(p, k, what) {
            let i = choose|i: int| 0 <= i < p.len() && declares(#[trigger] p[i], k) && row_has(p[i], what);
            assert(rows[i] == p[i]);
        }
        if declares(r, k) && row_has(r, what) {
            assert(rows[rows.len() - 1] == r);
        }
    }
}

proof fn lemma_merged_flags(rows: Seq<RowSettings>)
    ensures
        forall|k: Seq<char>| #[trigger] merged(rows).contains_key(k) <==> (k.len() > 0 && declared_with(rows, k, 0)),
        forall|k: Seq<char>| #[trigger] merged(rows).contains_key(k) ==> {
            &&& merged(rows)[k].include_fundamentals == declared_with(rows, k, 1)
            &&& merged(rows)[k].ind_neutral == declared_with(rows, k, 2)
            &&& (merged(rows)[k].mode == "phase7_backfill"@) == declared_with(rows, k, 3)
            &&& (merged(rows)[k].mode == "pit"@ || merged(rows)[k].mode == "phase7_backfill"@)
        },
    decreases rows.len(),
{
    reveal_strlit("pit");
    reveal_strlit("phase7_backfill");
    if rows.len() > 0 {
        let p = rows.drop_last();
        let r = rows.last();
        lemma_merged_flags(p);
        lemma_declared_step(rows);
        let m = merged(p);
        match r.name {
            None => {
                assert(merged(rows) == m);
                assert forall|k: Seq<char>| #[trigger] merged(rows).contains_key(k) implies {
                    &&& merged(rows)[k].include_fundamentals == declared_with(rows, k, 1)
                    &&& merged(rows)[k].ind_neutral == declared_with(rows, k, 2)
                    &&& (merged(rows)[k].mode == "phase7_backfill"@) == declared_with(rows, k, 3)
                    &&& (merged(rows)[k].mode == "pit"@ || merged(rows)[k].mode == "phase7_backfill"@)
                } by {
                    assert(!declares(r, k));
                    assert(declared_with(rows, k, 1) == declared_with(p, k, 1));
                    assert(declared_with(rows, k, 2) == declared_with(p, k, 2));
                    assert(declared_with(rows, k, 3) == declared_with(p, k, 3));
                }
            },
            Some(n) => {
                let kr = trimmed(n);
                if kr.len() == 0 {
                    assert(merged(rows) == m);
                    assert forall|k: Seq<char>| #[trigger] merged(rows).contains_key(k) implies {
                        &&& merged(rows)[k].include_fundamentals == declared_with(rows, k, 1)
                        &&& merged(rows)[k].ind_neutral == declared_with(rows, k, 2)
                        &&& (merged(rows)[k].mode == "phase7_backfill"@) == declared_with(rows, k, 3)
                        &&& (merged(rows)[k].mode == "pit"@ || merged(rows)[k].mode == "phase7_backfill"@)
                    } by {
                        assert(k.len() > 0);
                        assert(!declares(r, k));
                        assert(declared_with(rows, k, 1) == declared_with(p, k, 1));
                        assert(declared_with(rows, k, 2) == declared_with(p, k, 2));
                        assert(declared_with(rows, k, 3) == declared_with(p, k, 3));
                    }
                } else {
                    let base = if m.contains_key(kr) {
                        m[kr]
                    } else {
                        initial_settings(kr)
                    };
                    assert(merged(rows) == m.insert(kr, merge_row(base, r)));
                    assert(declares(r, kr));
                    if !m.contains_key(kr) {
                        assert(!declared_with(p, kr, 0));
                        assert forall|w: int| #![auto] !declared_with(p, kr, w) by {
                            if declared_with(p, kr, w) {
                                let i = choose|i: int| 0 <= i < p.len() && declares(#[trigger] p[i], kr) && row_has(p[i], w);
                                assert(row_has(p[i], 0));
                                assert(declared_with(p, kr, 0));
                            }
                        }
                    }
                    assert(declared_with(rows, kr, 0));
                    assert forall|k: Seq<char>| #[trigger] merged(rows).contains_key(k) implies {
                        &&& merged(rows)[k].include_fundamentals == declared_with(rows, k, 1)
                        &&& merged(rows)[k].ind_neutral == declared_with(rows, k, 2)
                        &&& (merged(rows)[k].mode == "phase7_backfill"@) == declared_with(rows, k, 3)
                        &&& (merged(rows)[k].mode == "pit"@ || merged(rows)[k].mode == "phase7_backfill"@)
                    } by {
                        assert(declared_with(rows, k, 1) == (declared_with(p, k, 1) || (declares(r, k) && row_has(r, 1))));
                        assert(declared_with(rows, k, 2) == (declared_with(p, k, 2) || (declares(r, k) && row_has(r, 2))));
                        assert(declared_with(rows, k, 3) == (declared_with(p, k, 3) || (declares(r, k) && row_has(r, 3))));
                        if k == kr {
                            let v = merge_row(base, r);
                            assert(merged(rows)[k] == v);
                            if m.contains_key(kr) {
                                assert(base == m[kr]);
                                assert(base.include_fundamentals == declared_with(p, kr, 1));
                                assert(base.ind_neutral == declared_with(p, kr, 2));
                                assert((base.mode == "phase7_backfill"@) == declared_with(p, kr, 3));
                                assert(base.mode == "pit"@ || base.mode == "phase7_backfill"@);
                            } else {
                                assert(!declared_with(p, kr, 1));
                                assert(!declared_with(p, kr, 2));
                                assert(!declared_with(p, kr, 3));
                                assert(base.mode == "pit"@);
                            }
                            assert(v.include_fundamentals == declared_with(rows, k, 1));
                            assert(v.ind_neutral == declared_with(rows, k, 2));
                            assert((v.mode == "phase7_backfill"@) == declared_with(rows, k, 3));
                        } else {
                            assert(merged(rows)[k] == m[k]);
                            assert(!declares(r, k));
                        }
                    }
                }
            },
        }
    }
}

/// Law: the merged combos are exactly the non-empty trimmed names that rows
/// declare; a merged combo includes fundamentals, is industry-neutral, or
/// uses the phase7 backfill mode exactly when some row declaring it asks so.
pub proof fn law_combo_merge_any_declaration(rows: Seq<RowSettings>, k: Seq<char>)
    ensures
        merged(rows).contains_key(k) <==> (k.len() > 0 && declared_with(rows, k, 0)),
        merged(rows).contains_key(k) ==> (merged(rows)[k].include_fundamentals <==> declared_with(rows, k, 1)),
        merged(rows).contains_key(k) ==> (merged(rows)[k].ind_neutral <==> declared_with(rows, k, 2)),
        merged(rows).contains_key(k) ==> (merged(rows)[k].mode == "phase7_backfill"@ <==> declared_with(rows, k, 3)),
{
    lemma_merged_flags(rows);
}

/// The whitelist of the first row declaring `k` that has one.
pub open spec fn first_whitelist(rows: Seq<RowSettings>, k: Seq<char>) -> Option<Seq<Seq<char>>>
    decreases rows.len(),
{
    if rows.len() == 0 {
        None
    } else if declares(rows[0], k) && rows[0].whitelist is Some {
        rows[0].whitelist
    } else {
        first_whitelist(rows.drop_first(), k)
    }
}

/// The horizon of the first row declaring `k` that has one.
pub open spec fn first_horizon(rows: Seq<RowSettings>, k: Seq<char>) -> Option<i16>
    decreases rows.len(),
{
    if rows.len() == 0 {
        None
    } else if declares(rows[0], k) && rows[0].horizon is Some {
        rows[0].horizon
    } else {
        first_horizon(rows.drop_first(), k)
    }
}

proof fn lemma_first_from_end(rows: Seq<RowSettings>, k: Seq<char>)
    requires
        rows.len() > 0,
    ensures
        first_whitelist(rows, k) == (if first_whitelist(rows.drop_last(), k) is Some {
            first_whitelist(rows.drop_last(), k)
        } else if declares(rows.last(), k) && rows.last().whitelist is Some {
            rows.last().whitelist
        } else {
            None
        }),
        first_horizon(rows, k) == (if first_horizon(rows.drop_last(), k) is Some {
            first_horizon(rows.drop_last(), k)
        } else if declares(rows.last(), k) && rows.last().horizon is Some {
            rows.last().horizon
        } else {
            None
        }),
    decreases rows.len(),
{
    if rows.len() == 1 {
        assert(rows.drop_last() =~= Seq::<RowSettings>::empty());
        assert(rows.drop_first() =~= Seq::<RowSettings>::empty());
        assert(rows.last() == rows[0]);
    } else {
        let df = rows.drop_first();
        lemma_first_from_end(df, k);
        assert(df.drop_last() =~= rows.drop_last().drop_first());
        assert(df.last() == rows.last());
        assert(rows.drop_last()[0] == rows[0]);
    }
}

proof fn lemma_merged_firsts(rows: Seq<RowSettings>)
    ensures
        forall|k: Seq<char>| #[trigger] merged(rows).contains_key(k) ==> merged(rows)[k].whitelist
            == first_whitelist(rows, k) && merged(rows)[k].horizon == first_horizon(rows, k),
        forall|k: Seq<char>| #[trigger] merged(rows).contains_key(k) ==> merged(rows)[k].name == k
            && k.len() > 0,
        forall|k: Seq<char>| k.len() > 0 && !merged(rows).contains_key(k) ==> first_whitelist(rows, k)
            is None && first_horizon(rows, k) is None,
    decreases rows.len(),
{
    if rows.len() > 0 {
        let p = rows.drop_last();
        let r = rows.last();
        lemma_merged_firsts(p);
        let m = merged(p);
        assert forall|k: Seq<char>| #![auto] first_whitelist(rows, k) == (if first_whitelist(p, k) is Some {
            first_whitelist(p, k)
        } else if declares(r, k) && r.whitelist is Some {
            r.whitelist
        } else {
            None
        }) && first_horizon(rows, k) == (if first_horizon(p, k) is Some {
            first_horizon(p, k)
        } else if declares(r, k) && r.horizon is Some {
            r.horizon
        } else {
            None
        }) by {
            lemma_first_from_end(rows, k);
        }
        match r.name {
            None => {
                assert(merged(rows) == m);
            },
            Some(n) => {
                let kr = trimmed(n);
                if kr.len() == 0 {
                    assert(merged(rows) == m);
                    assert forall|k: Seq<char>| #[trigger] merged(rows).contains_key(k) implies merged(rows)[k].whitelist
                        == first_whitelist(rows, k) && merged(rows)[k].horizon == first_horizon(rows, k) by {
                        assert(k == m[k].name);
                        assert(!declares(r, k) || k.len() == 0);
                    }
                    assert forall|k: Seq<char>| k.len() > 0 && !merged(rows).contains_key(k) implies first_whitelist(
                        rows,
                        k,
                    ) is None && first_horizon(rows, k) is None by {
                        if declares(r, k) {
                            assert(k.len() == 0);
                        }
                    }
                } else {
                    let base = if m.contains_key(kr) {
                        m[kr]
                    } else {
                        initial_settings(kr)
                    };
                    assert(merged(rows) == m.insert(kr, merge_row(base, r)));
                    assert(declares(r, kr));
                }
            },
        }
    }
}

/// Law: a merged combo keeps the whitelist, and the horizon, of the first row
/// declaring it that has one (`None` when no declaring row has one).
pub proof fn law_combo_merge_first_settings(rows: Seq<RowSettings>, k: Seq<char>)
    requires
        merged(rows).contains_key(k),
    ensures
        merged(rows)[k].whitelist == first_whitelist(rows, k),
        merged(rows)[k].horizon == first_horizon(rows, k),
{
    lemma_merged_firsts(rows);
}

/// Whether a combo is kept fresh by the PIT refresh: its name starts with
/// `full_pit_icir`; the nightly chain also leaves out
/// `full_pit_icir_indneutral_val_v1`, which it materializes on its own.
pub open spec fn pit_kept(name: Seq<char>, nightly: bool) -> bool {
    has_prefix(name, "full_pit_icir"@) && !(nightly && name == "full_pit_icir_indneutral_val_v1"@)
}

/// The settings of the kept combos, in their order.
pub open spec fn pit_selected(v: Seq<ComboSettings>, nightly: bool) -> Seq<ComboSettings>
    decreases v.len(),
{
    if v.len() == 0 {
        Seq::empty()
    } else {
        let prev = pit_selected(v.drop_last(), nightly);
        if pit_kept(v.last().name, nightly) {
            prev.push(v.last())
        } else {
            prev
        }
    }
}

/// The combos the PIT refresh materializes (`nightly` for the nightly chain,
/// which handles `full_pit_icir_indneutral_val_v1` separately).
pub fn pit_refresh_combos(configs: Vec<ComboMaterializeConfig>, nightly: bool) -> (r: Vec<ComboMaterializeConfig>)
    ensures
        settings_seq(r@) == pit_selected(settings_seq(configs@), nightly),
{
    let ghost all = settings_seq(configs@);
    let ghost n = configs@.len();
    let mut configs = configs;
    let len0 = configs.len();
    assert(len0 == n);
    let mut out: Vec<ComboMaterializeConfig> = Vec::new();
    let mut i: usize = 0;
    while configs.len() > 0
        invariant
            n == all.len(),
            n <= usize::MAX,
            i + configs@.len() == n,
            settings_seq(configs@) == all.skip(i as int),
            settings_seq(out@) == pit_selected(all.take(i as int), nightly),
        decreases configs.len(),
    {
        let ghost before = configs@;
        let c = configs.remove(0);
        proof {
            assert(all.skip(i as int)[0] == settings_of(c));
            assert(all.take(i + 1).drop_last() =~= all.take(i as int));
            assert(all.take(i + 1).last() == settings_of(c));
            assert(configs@ =~= before.drop_first());
            assert(settings_seq(configs@) =~= settings_seq(before).drop_first());
            assert(all.skip(i as int).drop_first() =~= all.skip(i + 1));
        }
        let keep = starts_with(c.combo_name.as_str(), "full_pit_icir") && !(nightly && str_eq(
            c.combo_name.as_str(),
            "full_pit_icir_indneutral_val_v1",
        ));
        if keep {
            let ghost prev = out@;
            out.push(c);
            proof {
                assert(settings_seq(out@) =~= settings_seq(prev).push(all.take(i + 1).last()));
            }
        }
        i = i + 1;
    }
    proof {
        assert(all.take(n as int) =~= all);
    }
    out
}

} // verus!
