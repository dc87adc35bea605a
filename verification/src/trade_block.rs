//! Trading blocks of A shares: suspension blocks both sides, limit-up blocks
//! buying, limit-down blocks selling.
use vstd::prelude::*;
use vstd::string::*;
use vstd::utf8::{
    char_is_scalar, char_u32_cast, encode_scalar, encode_utf8, has_width_1_encoding,
    has_width_2_encoding, has_width_3_encoding,
};
use crate::text::{
    find_char, first_index_of, is_digit, lemma_first_index_of_bounds, str_eq, strings_view,
};

verus! {

/// Why a symbol cannot be traded today, with the limit direction when known.
#[derive(Debug)]
pub struct TradeBlock {
    /// `"停牌"` (suspended) or `"涨跌停"` (at a price limit).
    pub reason: String,
    /// `'U'` limit up, `'D'` limit down, `None` when suspended or unknown.
    pub limit_type: Option<char>,
}

/// Whether a block with this reason and limit direction blocks `side`.
pub open spec fn blocks_side_spec(reason: Seq<char>, limit_type: Option<char>, side: Seq<char>) -> bool {
    if reason == "停牌"@ {
        true
    } else {
        match limit_type {
            Some(c) => if c == 'U' {
                side == "buy"@
            } else if c == 'D' {
                side == "sell"@
            } else {
                true
            },
            None => true,
        }
    }
}

impl TradeBlock {
    /// Whether this block stops an order on `side` (`"buy"` / `"sell"`):
    /// suspension blocks both; limit up blocks buying only; limit down blocks
    /// selling only; a limit with unknown direction blocks both.
    pub fn blocks_side(&self, side: &str) -> (r: bool)
        ensures
            r == blocks_side_spec(self.reason@, self.limit_type, side@),
    {
        if str_eq(self.reason.as_str(), "停牌") {
            return true;
        }
        match self.limit_type {
            Some(c) => if c == 'U' {
                str_eq(side, "buy")
            } else if c == 'D' {
                str_eq(side, "sell")
            } else {
                true
            },
            None => true,
        }
    }
}

/// Whether a symbol is a main-board A share: a 6-byte code starting with
/// `0`, `3` or `6`, a dot, then exactly `SH` or `SZ`.
pub open spec fn a_share_spec(s: Seq<char>) -> bool {
    let k = first_index_of(s, '.');
    if k >= s.len() {
        false
    } else {
        let code = s.subrange(0, k);
        let suffix = s.subrange(k + 1, s.len() as int);
        let bytes = encode_utf8(code);
        (suffix == "SH"@ || suffix == "SZ"@) && bytes.len() == 6 && (bytes[0] == 48u8 || bytes[0]
            == 51u8 || bytes[0] == 54u8)
    }
}

proof fn lemma_width1_byte(v: u32)
    by (bit_vector)
    requires
        v <= 0x7F,
    ensures
        ((v & 0x7F) as u8) as u32 == v,
{
}

proof fn lemma_wide_lead_bytes(x: u8)
    by (bit_vector)
    ensures
        (0xC0u8 | x) >= 128u8,
        (0xE0u8 | x) >= 128u8,
        (0xF0u8 | x) >= 128u8,
{
}

/// The first byte of a character's UTF-8 encoding is below 128 only for an
/// ASCII character, whose code it then is.
proof fn lemma_ascii_lead_byte(c: char)
    ensures
        encode_scalar(c as u32).len() > 0,
        encode_scalar(c as u32)[0] < 128 ==> c as u32 == encode_scalar(c as u32)[0] as u32,
{
    let v = c as u32;
    char_is_scalar(c);
    if has_width_1_encoding(v) {
        lemma_width1_byte(v);
    } else if has_width_2_encoding(v) {
        lemma_wide_lead_bytes(((v >> 6) & 0x1F) as u8);
    } else if has_width_3_encoding(v) {
        lemma_wide_lead_bytes(((v >> 12) & 0x0F) as u8);
    } else {
        lemma_wide_lead_bytes(((v >> 18) & 0x7) as u8);
    }
}

/// Law: a main-board A share's code starts with the digit `0`, `3` or `6`;
/// no code starting with any other character (a Shenzhen ETF's `1`, a
/// Shanghai fund's `5`) ever counts as one.
pub proof fn law_a_share_code_start(s: Seq<char>)
    ensures
        a_share_spec(s) ==> s.len() > 0 && (s[0] == '0' || s[0] == '3' || s[0] == '6'),
{
    if a_share_spec(s) {
        lemma_first_index_of_bounds(s, '.');
        let k = first_index_of(s, '.');
        let code = s.subrange(0, k);
        let bytes = encode_utf8(code);
        if code.len() == 0 {
            assert(bytes.len() == 0);
        }
        let c = code[0];
        lemma_ascii_lead_byte(c);
        let e = encode_scalar(c as u32);
        assert(bytes == e + encode_utf8(code.drop_first()));
        assert(bytes[0] == e[0]);
        assert(c == s[0]);
        if bytes[0] == 48u8 {
            char_u32_cast(c, 48u32);
            char_u32_cast('0', 48u32);
        } else if bytes[0] == 51u8 {
            char_u32_cast(c, 51u32);
            char_u32_cast('3', 51u32);
        } else {
            char_u32_cast(c, 54u32);
            char_u32_cast('6', 54u32);
        }
    }
}

proof fn lemma_encode_ascii_len(chars: Seq<char>)
    requires
        forall|i: int| 0 <= i < chars.len() ==> (#[trigger] chars[i] as u32) < 128,
    ensures
        encode_utf8(chars).len() == chars.len(),
    decreases chars.len(),
{
    if chars.len() > 0 {
        let t = chars.drop_first();
        assert forall|i: int| 0 <= i < t.len() implies (#[trigger] t[i] as u32) < 128 by {
            assert(t[i] == chars[i + 1]);
        }
        lemma_encode_ascii_len(t);
        assert((chars[0] as u32) < 128);
    }
}

/// Law: a symbol of six ASCII digits, a dot and `SH` or `SZ` is a main-board
/// A share exactly when its first digit is `0`, `3` or `6`.
pub proof fn law_a_share_digit_codes(code: Seq<char>, suffix: Seq<char>)
    requires
        code.len() == 6,
        forall|i: int| 0 <= i < 6 ==> is_digit(#[trigger] code[i]),
        suffix == "SH"@ || suffix == "SZ"@,
    ensures
        a_share_spec(code + "."@ + suffix) == (code[0] == '0' || code[0] == '3' || code[0] == '6'),
{
    reveal_strlit(".");
    let s = code + "."@ + suffix;
    lemma_first_index_of_bounds(s, '.');
    let k = first_index_of(s, '.');
    assert(s[6] == '.');
    if k < 6 {
        assert(s[k] == code[k]);
        assert(is_digit(code[k]));
    }
    assert(k == 6);
    assert(s.subrange(0, 6) =~= code);
    assert(s.subrange(7, s.len() as int) =~= suffix);
    assert forall|i: int| 0 <= i < code.len() implies (#[trigger] code[i] as u32) < 128 by {
        assert(is_digit(code[i]));
    }
    lemma_encode_ascii_len(code);
    let c = code[0];
    let v = c as u32;
    assert(v < 128);
    lemma_width1_byte(v);
    let bytes = encode_utf8(code);
    assert(bytes == encode_scalar(v) + encode_utf8(code.drop_first()));
    assert(bytes[0] as u32 == v);
    char_u32_cast('0', 48u32);
    char_u32_cast('3', 51u32);
    char_u32_cast('6', 54u32);
    char_u32_cast(c, v);
}

/// Whether a symbol is a main-board A share (so the suspension and price-limit
/// tables cover it).
pub fn is_a_share_symbol(symbol: &str) -> (r: bool)
    ensures
        r == a_share_spec(symbol@),
{
    proof {
        lemma_first_index_of_bounds(symbol@, '.');
    }
    let n = symbol.unicode_len();
    let k = find_char(symbol, '.');
    if k >= n {
        return false;
    }
    let code = symbol.substring_char(0, k);
    let suffix = symbol.substring_char(k + 1, n);
    if !(str_eq(suffix, "SH") || str_eq(suffix, "SZ")) {
        return false;
    }
    if code.len() != 6 {
        return false;
    }
    let bytes = code.as_bytes();
    let b = bytes[0];
    b == 48u8 || b == 51u8 || b == 54u8
}

/// The symbols that are main-board A shares, in order.
pub open spec fn a_shares_of(v: Seq<Seq<char>>) -> Seq<Seq<char>>
    decreases v.len(),
{
    if v.len() == 0 {
        Seq::empty()
    } else if a_share_spec(v.last()) {
        a_shares_of(v.drop_last()).push(v.last())
    } else {
        a_shares_of(v.drop_last())
    }
}

/// The main-board A shares among `symbols` (only those have block records).
pub fn a_share_symbols(symbols: &Vec<String>) -> (r: Vec<String>)
    ensures
        strings_view(r@) == a_shares_of(strings_view(symbols@)),
{
    let ghost sv = strings_view(symbols@);
    let mut out: Vec<String> = Vec::new();
    let mut i: usize = 0;
    while i < symbols.len()
        invariant
            0 <= i <= symbols@.len(),
            sv == strings_view(symbols@),
            strings_view(out@) == a_shares_of(sv.take(i as int)),
        decreases symbols.len() - i,
    {
        proof {
            assert(sv.take(i + 1).drop_last() =~= sv.take(i as int));
            assert(sv.take(i + 1).last() == symbols@[i as int]@);
        }
        if is_a_share_symbol(symbols[i].as_str()) {
            let ghost prev = out@;
            let s = symbols[i].clone();
            out.push(s);
            proof {
                assert(strings_view(out@) =~= strings_view(prev).push(symbols@[i as int]@));
            }
        }
        i = i + 1;
    }
    proof {
        assert(sv.take(symbols@.len() as int) =~= sv);
    }
    out
}

/// A block row from the database: symbol, reason, limit direction text.
pub open spec fn row_view(r: (String, String, Option<String>)) -> (Seq<char>, Seq<char>, Option<Seq<char>>) {
    (r.0@, r.1@, match r.2 {
        Some(s) => Some(s@),
        None => None,
    })
}

/// The block a row describes: its reason and the first character of its
/// limit direction text.
pub open spec fn block_of(reason: Seq<char>, lt: Option<Seq<char>>) -> (Seq<char>, Option<char>) {
    (reason, match lt {
        Some(s) => if s.len() > 0 {
            Some(s[0])
        } else {
            None
        },
        None => None,
    })
}

/// The block of each symbol: the first row for a symbol wins (suspension rows
/// come first, so a suspension is never replaced by a price limit).
pub open spec fn first_blocks(rows: Seq<(Seq<char>, Seq<char>, Option<Seq<char>>)>) -> Map<Seq<char>, (Seq<char>, Option<char>)>
    decreases rows.len(),
{
    if rows.len() == 0 {
        Map::empty()
    } else {
        let m = first_blocks(rows.drop_last());
        let r = rows.last();
        if m.contains_key(r.0) {
            m
        } else {
            m.insert(r.0, block_of(r.1, r.2))
        }
    }
}

pub type BlockRow = (Seq<char>, Seq<char>, Option<Seq<char>>);

proof fn lemma_first_blocks_extend(a: Seq<BlockRow>, b: Seq<BlockRow>)
    ensures
        forall|k: Seq<char>| #[trigger] first_blocks(a).contains_key(k) ==> first_blocks(a + b).contains_key(k)
            && first_blocks(a + b)[k] == first_blocks(a)[k],
    decreases b.len(),
{
    if b.len() == 0 {
        assert(a + b =~= a);
    } else {
        lemma_first_blocks_extend(a, b.drop_last());
        assert((a + b).drop_last() =~= a + b.drop_last());
        assert((a + b).last() == b.last());
    }
}

proof fn lemma_first_blocks_suspended(susp: Seq<BlockRow>)
    requires
        forall|i: int| 0 <= i < susp.len() ==> (#[trigger] susp[i]).1 == "停牌"@,
    ensures
        forall|i: int| 0 <= i < susp.len() ==> first_blocks(susp).contains_key(#[trigger] susp[i].0),
        forall|k: Seq<char>| #[trigger] first_blocks(susp).contains_key(k) ==> first_blocks(susp)[k].0 == "停牌"@,
    decreases susp.len(),
{
    if susp.len() > 0 {
        let p = susp.drop_last();
        assert forall|i: int| 0 <= i < p.len() implies (#[trigger] p[i]).1 == "停牌"@ by {
            assert(p[i] == susp[i]);
        }
        lemma_first_blocks_suspended(p);
        assert forall|i: int| 0 <= i < susp.len() implies first_blocks(susp).contains_key(#[trigger] susp[i].0) by {
            if i < p.len() {
                assert(susp[i] == p[i]);
            }
        }
        let r = susp[susp.len() - 1];
        assert(r.1 == "停牌"@);
        assert(susp.last() == r);
        let m = first_blocks(p);
        assert forall|k: Seq<char>| #[trigger] first_blocks(susp).contains_key(k) implies first_blocks(
            susp,
        )[k].0 == "停牌"@ by {
            if !m.contains_key(r.0) && k == r.0 {
                assert(first_blocks(susp)[k] == block_of(r.1, r.2));
            } else {
                assert(m.contains_key(k));
            }
        }
    }
}

/// Law: with the suspension rows first, a suspended symbol's block is its
/// suspension, whatever price-limit rows follow.
pub proof fn law_suspension_wins(susp: Seq<BlockRow>, limits: Seq<BlockRow>, sym: Seq<char>)
    requires
        forall|i: int| 0 <= i < susp.len() ==> (#[trigger] susp[i]).1 == "停牌"@,
        exists|i: int| 0 <= i < susp.len() && (#[trigger] susp[i]).0 == sym,
    ensures
        first_blocks(susp + limits).contains_key(sym),
        first_blocks(susp + limits)[sym].0 == "停牌"@,
{
    lemma_first_blocks_suspended(susp);
    lemma_first_blocks_extend(susp, limits);
    let i = choose|i: int| 0 <= i < susp.len() && (#[trigger] susp[i]).0 == sym;
    assert(first_blocks(susp).contains_key(susp[i].0));
}

pub open spec fn entry_view(e: (String, TradeBlock)) -> (Seq<char>, (Seq<char>, Option<char>)) {
    (e.0@, (e.1.reason@, e.1.limit_type))
}

/// The entries list exactly the map, each symbol once.
pub open spec fn lists_blocks(v: Seq<(Seq<char>, (Seq<char>, Option<char>))>, m: Map<Seq<char>, (Seq<char>, Option<char>)>) -> bool {
    &&& forall|i: int, j: int| 0 <= i < j < v.len() ==> #[trigger] v[i].0 != #[trigger] v[j].0
    &&& forall|i: int| 0 <= i < v.len() ==> #[trigger] m.contains_key(v[i].0) && m[v[i].0] == v[i].1
    &&& forall|k: Seq<char>| #[trigger] m.contains_key(k) ==> exists|i: int| 0 <= i < v.len() && #[trigger] v[i].0 == k
}

/// Builds the per-symbol blocks from the suspension rows followed by the
/// price-limit rows (`(symbol, reason, limit_type)`).
pub fn trade_block_entries(rows: Vec<(String, String, Option<String>)>) -> (r: Vec<(String, TradeBlock)>)
    ensures
        lists_blocks(r@.map_values(|e: (String, TradeBlock)| entry_view(e)), first_blocks(
            rows@.map_values(|x: (String, String, Option<String>)| row_view(x)),
        )),
{
    let ghost all = rows@.map_values(|x: (String, String, Option<String>)| row_view(x));
    let mut out: Vec<(String, TradeBlock)> = Vec::new();
    let mut i: usize = 0;
    while i < rows.len()
        invariant
            0 <= i <= rows@.len(),
            all == rows@.map_values(|x: (String, String, Option<String>)| row_view(x)),
            lists_blocks(out@.map_values(|e: (String, TradeBlock)| entry_view(e)), first_blocks(all.take(i as int))),
        decreases rows.len() - i,
    {
        let ghost ov = out@.map_values(|e: (String, TradeBlock)| entry_view(e));
        let ghost m = first_blocks(all.take(i as int));
        proof {
            assert(all.take(i + 1).drop_last() =~= all.take(i as int));
            assert(all.take(i + 1).last() == row_view(rows@[i as int]));
        }
        let sym = &rows[i].0;
        let mut j: usize = 0;
        let mut seen = false;
        while j < out.len() && !seen
            invariant
                0 <= j <= out@.len(),
                ov == out@.map_values(|e: (String, TradeBlock)| entry_view(e)),
                seen ==> j < out@.len() && ov[j as int].0 == sym@,
                forall|q: int| 0 <= q < j ==> ov[q].0 != sym@,
            decreases out.len() - j, (if seen { 0int } else { 1int }),
        {
            if str_eq(out[j].0.as_str(), sym.as_str()) {
                seen = true;
            } else {
                j = j + 1;
            }
        }
        proof {
            if seen {
                assert(ov[j as int].0 == sym@);
                assert(m.contains_key(sym@));
            } else {
                assert(lists_blocks(ov, m));
                if m.contains_key(sym@) {
                    let q = choose|q: int| 0 <= q < ov.len() && #[trigger] ov[q].0 == sym@;
                    assert(false);
                }
            }
        }
        if !seen {
            let lt: Option<char> = match &rows[i].2 {
                Some(t) => if t.unicode_len() > 0 {
                    Some(t.as_str().get_char(0))
                } else {
                    None
                },
                None => None,
            };
            let block = TradeBlock { reason: rows[i].1.clone(), limit_type: lt };
            out.push((sym.clone(), block));
            proof {
                let nv = out@.map_values(|e: (String, TradeBlock)| entry_view(e));
                let e = (sym@, block_of(rows@[i as int].1@, row_view(rows@[i as int]).2));
                assert(nv =~= ov.push(e));
                let nm = first_blocks(all.take(i + 1));
                assert(nm == m.insert(sym@, e.1));
                assert forall|a: int| 0 <= a < nv.len() implies #[trigger] nm.contains_key(nv[a].0)
                    && nm[nv[a].0] == nv[a].1 by {
                    if a < ov.len() {
                        assert(nv[a] == ov[a]);
                        assert(m.contains_key(ov[a].0));
                    }
                }
                assert forall|k: Seq<char>| #[trigger] nm.contains_key(k) implies exists|a: int|
                    0 <= a < nv.len() && #[trigger] nv[a].0 == k by {
                    if k == sym@ {
                        assert(nv[ov.len() as int].0 == k);
                    } else {
                        let a = choose|a: int| 0 <= a < ov.len() && #[trigger] ov[a].0 == k;
                        assert(nv[a].0 == k);
                    }
                }
            }
        }
        i = i + 1;
    }
    proof {
        assert(all.take(rows@.len() as int) =~= all);
    }
    out
}

} // verus!
