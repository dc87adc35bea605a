//! Rules of the live-trading signal file: which accounts get one, which channel
//! carries it, whether the factor cross-section is fresh enough, how symbols are
//! written, and the SHA-1 checksum of the canonical payload.
use vstd::prelude::*;
use vstd::string::*;
use crate::calendar::{
    CivilDate, chrono_utc_format, compact_date_text, compact_text, dashed_date_text, dashed_text,
    format_utc, instant_in_range,
};

use crate::text::{ends_with, has_suffix, opt_items, opt_str, string_items, strings_view};
verus! {

/// A signal delivery channel (`ptrade_channel_config` row).
#[derive(Debug)]
pub struct PtradeChannel {
    pub channel_name: String,
    pub scp_target: String,
    pub enabled: bool,
}

/// The channel an account's signal goes through: its configured channel when
/// enabled; an error when disabled or not configured (a signal is never pushed
/// to a guessed directory).
pub fn check_channel(account_id: &str, row: Option<PtradeChannel>) -> (r: Result<PtradeChannel, String>)
    ensures
        match row {
            Some(c) => if c.enabled {
                r == Ok::<PtradeChannel, String>(c)
            } else {
                r is Err && r->Err_0@ == "通道 "@ + account_id@ + " 已停用(enabled=false)"@
            },
            None => r is Err && r->Err_0@ == "账户 "@ + account_id@
                + " 无 ptrade_channel_config 配置(未配通道目录,拒绝推送防误发)"@,
        },
{
    match row {
        Some(c) => if c.enabled {
            Ok(c)
        } else {
            let mut e = String::from_str("通道 ");
            e.append(account_id);
            e.append(" 已停用(enabled=false)");
            Err(e)
        },
        None => {
            let mut e = String::from_str("账户 ");
            e.append(account_id);
            e.append(" 无 ptrade_channel_config 配置(未配通道目录,拒绝推送防误发)");
            Err(e)
        },
    }
}

/// The accounts of the export task: the strings of its `accounts` array when it
/// has one, else its single `account`, else none.
pub open spec fn export_accounts_spec(accounts: Option<Seq<Option<Seq<char>>>>, account: Option<Seq<char>>) -> Seq<Seq<char>> {
    match accounts {
        Some(v) => string_items(v),
        None => match account {
            Some(a) => seq![a],
            None => Seq::empty(),
        },
    }
}

/// The accounts a signal export runs for, from the task parameters: `accounts`
/// is the `accounts` array (`None` when absent or not an array; `None` items
/// are not strings), `account` the `account` string.
pub fn export_accounts(accounts: Option<Vec<Option<String>>>, account: Option<String>) -> (r: Vec<String>)
    ensures
        strings_view(r@) == export_accounts_spec(opt_items(accounts), opt_str(account)),
{
    match accounts {
        Some(v) => {
            let ghost vv = v@.map_values(|o: Option<String>| opt_str(o));
            let mut out: Vec<String> = Vec::new();
            let mut i: usize = 0;
            while i < v.len()
                invariant
                    0 <= i <= v@.len(),
                    vv == v@.map_values(|o: Option<String>| opt_str(o)),
                    strings_view(out@) == string_items(vv.take(i as int)),
                decreases v.len() - i,
            {
                proof {
                    assert(vv.take(i + 1).drop_last() =~= vv.take(i as int));
                    assert(vv.take(i + 1).last() == opt_str(v@[i as int]));
                }
                match &v[i] {
                    Some(s) => {
                        let ghost prev = out@;
                        out.push(s.clone());
                        proof {
                            assert(strings_view(out@) =~= strings_view(prev).push(s@));
                        }
                    },
                    None => {},
                }
                i = i + 1;
            }
            proof {
                assert(vv.take(v@.len() as int) =~= vv);
            }
            out
        },
        None => match account {
            Some(a) => {
                let mut out: Vec<String> = Vec::new();
                out.push(a);
                proof {
                    assert(strings_view(out@) =~= seq![out@[0]@]);
                }
                out
            },
            None => {
                let out: Vec<String> = Vec::new();
                proof {
                    assert(strings_view(out@) =~= Seq::<Seq<char>>::empty());
                }
                out
            },
        },
    }
}

pub open spec fn no_rows_msg(combo: Seq<char>, date: CivilDate) -> Seq<char> {
    "combo "@ + combo + " 截面日 "@ + dashed_text(date) + " 无物化行(夜间链物化未覆盖), 拒绝导出"@
}

pub open spec fn no_backfill_msg(combo: Seq<char>) -> Seq<char> {
    "当日无已完成因子回填任务(夜间链未跑?), combo "@ + combo + " 截面新鲜度无法确认, 拒绝导出"@
}

pub open spec fn stale_msg(combo: Seq<char>, date: CivilDate, min_created: i64, backfill_at: i64) -> Seq<char> {
    "combo "@ + combo + " 截面 "@ + dashed_text(date) + " 行写入("@ + chrono_utc_format(
        min_created,
        "%Y-%m-%d %H:%M"@,
    ) + ")早于因子回填完成("@ + chrono_utc_format(backfill_at, "%H:%M"@) + ")=旧因子物化, 拒绝导出"@
}

/// The freshness gate of the combo cross-section before a live signal is
/// exported. `combo_row` is the row count and the earliest write (UTC
/// microseconds since the epoch) of the trade date's combo rows, `None` when
/// there is none; `backfill_done` the latest completion of a factor backfill
/// task started today. The cross-section passes only when it was written after
/// that backfill finished: written at or before it, it was built from the
/// previous day's factors.
pub fn verify_combo_materialization_freshness(
    combo_row: (i64, Option<i64>),
    backfill_done: Option<i64>,
    combo_name: &str,
    date: CivilDate,
) -> (r: Result<(), String>)
    requires
        date.wf(),
        combo_row.1 matches Some(m) ==> instant_in_range(m),
        backfill_done matches Some(b) ==> instant_in_range(b),
    ensures
        combo_row.1 is None ==> (r is Err && r->Err_0@ == no_rows_msg(combo_name@, date)),
        (combo_row.1 is Some && backfill_done is None) ==> (r is Err && r->Err_0@ == no_backfill_msg(
            combo_name@,
        )),
        combo_row.1 matches Some(m) ==> (backfill_done matches Some(b) ==> (if m <= b {
            r is Err && r->Err_0@ == stale_msg(combo_name@, date, m, b)
        } else {
            r is Ok
        })),
{
    let min_created = match combo_row.1 {
        Some(m) => m,
        None => {
            let mut e = String::from_str("combo ");
            e.append(combo_name);
            e.append(" 截面日 ");
            e.append(dashed_date_text(date).as_str());
            e.append(" 无物化行(夜间链物化未覆盖), 拒绝导出");
            return Err(e);
        },
    };
    let backfill_at = match backfill_done {
        Some(b) => b,
        None => {
            let mut e = String::from_str("当日无已完成因子回填任务(夜间链未跑?), combo ");
            e.append(combo_name);
            e.append(" 截面新鲜度无法确认, 拒绝导出");
            return Err(e);
        },
    };
    if min_created <= backfill_at {
        let mut e = String::from_str("combo ");
        e.append(combo_name);
        e.append(" 截面 ");
        e.append(dashed_date_text(date).as_str());
        e.append(" 行写入(");
        e.append(format_utc(min_created, "%Y-%m-%d %H:%M").as_str());
        e.append(")早于因子回填完成(");
        e.append(format_utc(backfill_at, "%H:%M").as_str());
        e.append(")=旧因子物化, 拒绝导出");
        return Err(e);
    }
    Ok(())
}

/// On a day the exchange is closed no new cross-section is made: the latest
/// one passes the freshness gate when it was written during the night chain
/// of the last trading day, at or after `night_chain_start` (UTC microseconds);
/// otherwise the trading-day rule decides.
pub fn closed_day_pass(
    is_trade_today: bool,
    night_chain_start: Option<i64>,
    combo_min_created: Option<i64>,
) -> (r: bool)
    ensures
        r == match (night_chain_start, combo_min_created) {
            (Some(n), Some(m)) => !is_trade_today && m >= n,
            _ => false,
        },
{
    if is_trade_today {
        return false;
    }
    match (night_chain_start, combo_min_created) {
        (Some(n), Some(m)) => m >= n,
        _ => false,
    }
}

/// The symbol as the broker's terminal writes it: `.SH` becomes `.SS`; other
/// suffixes stay.
pub open spec fn ptrade_symbol_spec(sym: Seq<char>) -> Seq<char> {
    if has_suffix(sym, ".SH"@) {
        sym.subrange(0, sym.len() - 3) + ".SS"@
    } else {
        sym
    }
}

/// Writes a symbol the way the broker's terminal expects (`.SH` → `.SS`).
pub fn to_ptrade_symbol(sym: &str) -> (r: String)
    ensures
        r@ == ptrade_symbol_spec(sym@),
{
    proof {
        reveal_strlit(".SH");
    }
    if ends_with(sym, ".SH") {
        let n = sym.unicode_len();
        let mut s = sym.substring_char(0, n - 3).to_owned();
        s.append(".SS");
        s
    } else {
        sym.to_owned()
    }
}

/// The symbol as this system writes it: the terminal's `.SS` becomes `.SH`;
/// other suffixes stay.
pub open spec fn quant_symbol_spec(sym: Seq<char>) -> Seq<char> {
    if has_suffix(sym, ".SS"@) {
        sym.subrange(0, sym.len() - 3) + ".SH"@
    } else {
        sym
    }
}

/// Reads a symbol from a broker report (`.SS` → `.SH`).
pub fn from_ptrade_symbol(sym: &str) -> (r: String)
    ensures
        r@ == quant_symbol_spec(sym@),
{
    proof {
        reveal_strlit(".SS");
    }
    if ends_with(sym, ".SS") {
        let n = sym.unicode_len();
        let mut s = sym.substring_char(0, n - 3).to_owned();
        s.append(".SH");
        s
    } else {
        sym.to_owned()
    }
}

/// Law: reading back a symbol written for the terminal gives the symbol again,
/// and writing a symbol read from a report gives the report's symbol again
/// (for symbols that do not already carry the other side's suffix).
pub proof fn law_ptrade_symbol_round_trip(sym: Seq<char>)
    ensures
        !has_suffix(sym, ".SS"@) ==> quant_symbol_spec(ptrade_symbol_spec(sym)) == sym,
        !has_suffix(sym, ".SH"@) ==> ptrade_symbol_spec(quant_symbol_spec(sym)) == sym,
{
    reveal_strlit(".SS");
    reveal_strlit(".SH");
    if has_suffix(sym, ".SH"@) {
        let p = sym.subrange(0, sym.len() - 3) + ".SS"@;
        assert(p.subrange(p.len() - 3, p.len() as int) =~= ".SS"@);
        assert(p.subrange(0, p.len() - 3) =~= sym.subrange(0, sym.len() - 3));
        assert(sym.subrange(0, sym.len() - 3) + ".SH"@ =~= sym);
    }
    if has_suffix(sym, ".SS"@) {
        let q = sym.subrange(0, sym.len() - 3) + ".SH"@;
        assert(q.subrange(q.len() - 3, q.len() as int) =~= ".SH"@);
        assert(q.subrange(0, q.len() - 3) =~= sym.subrange(0, sym.len() - 3));
        assert(sym.subrange(0, sym.len() - 3) + ".SS"@ =~= sym);
    }
}

/// The signal id of a strategy's signal for a trade date: `{strategy}_{YYYYMMDD}_001`.
pub fn signal_id(strategy_id: &str, trade_date: CivilDate) -> (r: String)
    requires
        trade_date.wf(),
    ensures
        r@ == strategy_id@ + "_"@ + compact_text(trade_date) + "_001"@,
{
    let mut s = String::from_str(strategy_id);
    s.append("_");
    let d = compact_date_text(trade_date);
    s.append(d.as_str());
    s.append("_001");
    s
}

/// The file name of a signal for a trade date: `signal_{YYYYMMDD}_001.json`.
pub fn signal_file_name(trade_date: CivilDate) -> (r: String)
    requires
        trade_date.wf(),
    ensures
        r@ == "signal_"@ + compact_text(trade_date) + "_001.json"@,
{
    let mut s = String::from_str("signal_");
    let d = compact_date_text(trade_date);
    s.append(d.as_str());
    s.append("_001.json");
    s
}

/// The account type written into a signal: `margin` for a leveraged account, else `cash`.
pub fn account_type(leverage_enabled: bool) -> (r: &'static str)
    ensures
        r@ == (if leverage_enabled { "margin"@ } else { "cash"@ }),
{
    if leverage_enabled {
        "margin"
    } else {
        "cash"
    }
}

/// The `blocked_side` of a signal item under the ETF premium gate: `"buy"` when
/// buying is blocked, else `"sell"` when selling is, else none.
pub fn blocked_side(blocks_buy: bool, blocks_sell: bool) -> (r: Option<&'static str>)
    ensures
        blocks_buy ==> (r is Some && r->0@ == "buy"@),
        !blocks_buy && blocks_sell ==> (r is Some && r->0@ == "sell"@),
        !blocks_buy && !blocks_sell ==> r is None,
{
    if blocks_buy {
        Some("buy")
    } else if blocks_sell {
        Some("sell")
    } else {
        None
    }
}

/// The SHA-1 digest of a byte string.
pub uninterp spec fn sha1_of(data: Seq<u8>) -> Seq<u8>;

/// Calls `sha1::Sha1` (new, update, finalize) on `data`; the digest is 20 bytes.
#[verifier::external_body]
fn sha1_digest(data: &[u8]) -> (r: Vec<u8>)
    ensures
        r@ == sha1_of(data@),
        r@.len() == 20,
{
    let mut h = <sha1::Sha1 as sha1::Digest>::new();
    sha1::Digest::update(&mut h, data);
    sha1::Digest::finalize(h).to_vec()
}

/// The lower-case hexadecimal digit of `n` (0 to 15).
pub open spec fn hex_digit(n: int) -> char {
    "0123456789abcdef"@[n]
}

/// The lower-case hexadecimal text of a byte string, two digits per byte.
pub open spec fn hex_of(b: Seq<u8>) -> Seq<char>
    decreases b.len(),
{
    if b.len() == 0 {
        Seq::empty()
    } else {
        hex_of(b.drop_last()) + seq![hex_digit((b.last() / 16) as int), hex_digit((b.last() % 16) as int)]
    }
}

fn hex_str(n: u8) -> (r: &'static str)
    requires
        n < 16,
    ensures
        r@ == seq![hex_digit(n as int)],
{
    let table = "0123456789abcdef";
    proof {
        reveal_strlit("0123456789abcdef");
    }
    table.substring_char(n as usize, (n + 1) as usize)
}

/// The SHA-1 checksum of the canonical signal text, in lower-case hex.
pub fn sha1_hex(data: &[u8]) -> (r: String)
    ensures
        r@ == hex_of(sha1_of(data@)),
        r@.len() == 40,
{
    let d = sha1_digest(data);
    let mut out = String::new();
    let mut i: usize = 0;
    while i < d.len()
        invariant
            0 <= i <= d@.len(),
            d@ == sha1_of(data@),
            out@ == hex_of(d@.take(i as int)),
        decreases d.len() - i,
    {
        let b = d[i];
        proof {
            assert(d@.take(i + 1).drop_last() =~= d@.take(i as int));
            assert(d@.take(i + 1).last() == b);
        }
        out.append(hex_str(b / 16));
        out.append(hex_str(b % 16));
        proof {
            assert(out@ =~= hex_of(d@.take(i as int)) + seq![hex_digit((b / 16) as int), hex_digit((b % 16) as int)]);
        }
        i = i + 1;
    }
    proof {
        assert(d@.take(d@.len() as int) =~= d@);
        lemma_hex_len(d@);
    }
    out
}

proof fn lemma_hex_len(b: Seq<u8>)
    ensures
        hex_of(b).len() == 2 * b.len(),
    decreases b.len(),
{
    if b.len() > 0 {
        lemma_hex_len(b.drop_last());
    }
}

} // verus!
