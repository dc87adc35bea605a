//! Rules of the broker report mails: subject tags and dates, the IMAP search
//! date, which mails are read, and the text of a channel's daily report.
use vstd::prelude::*;
use vstd::string::*;
use crate::calendar::{
    CivilDate, chrono_parse_compact, compact_date_text, compact_text, date_before, opt_triple,
    parse_compact_date,
};
use crate::text::{
    after_last, before_first, dec_padded, dec_signed, find_char, has_prefix, joined,
    lemma_first_index_of_bounds, push_dec_padded, push_dec_signed, starts_with, str_eq,
    strings_view, tail_after_last,
};

verus! {

/// The channel tag of an execution-report subject
/// (`ptrade_exec_{sim|live}_{date}`): `sim` or `live`, else none.
pub open spec fn channel_tag_spec(subject: Seq<char>) -> Option<Seq<char>> {
    if has_prefix(subject, "ptrade_exec_"@) {
        let seg = before_first(subject.skip(12), '_');
        if seg == "sim"@ {
            Some("sim"@)
        } else if seg == "live"@ {
            Some("live"@)
        } else {
            None
        }
    } else {
        None
    }
}

/// The channel tag of an execution-report subject.
pub fn channel_tag(subject: &str) -> (r: Option<&'static str>)
    ensures
        match r {
            Some(t) => channel_tag_spec(subject@) == Some(t@),
            None => channel_tag_spec(subject@) is None,
        },
{
    proof {
        reveal_strlit("ptrade_exec_");
    }
    if !starts_with(subject, "ptrade_exec_") {
        return None;
    }
    let n = subject.unicode_len();
    let rest = subject.substring_char(12, n);
    proof {
        assert(rest@ =~= subject@.skip(12));
        lemma_first_index_of_bounds(rest@, '_');
    }
    let k = find_char(rest, '_');
    let seg = rest.substring_char(0, k);
    if str_eq(seg, "sim") {
        Some("sim")
    } else if str_eq(seg, "live") {
        Some("live")
    } else {
        None
    }
}

/// The date at the end of a report subject (`..._20260922`), parsed by
/// `chrono` as `%Y%m%d`; `None` when the last segment is not such a date.
pub fn subject_date(subject: &str) -> (r: Option<CivilDate>)
    ensures
        opt_triple(r) == chrono_parse_compact(after_last(subject@, '_')),
        r matches Some(d) ==> d.wf(),
{
    let tail = tail_after_last(subject, '_');
    parse_compact_date(tail)
}

/// An execution report whose subject tag disagrees with the channel it was
/// fetched for (`live` on a simulation channel, `sim` on a production one);
/// an untagged subject never disagrees. Such a report is still ingested.
pub fn tag_mismatch(subject: &str, is_production: bool) -> (r: bool)
    ensures
        r == match channel_tag_spec(subject@) {
            Some(t) => (t == "live"@) != is_production,
            None => false,
        },
{
    match channel_tag(subject) {
        Some(t) => str_eq(t, "live") != is_production,
        None => false,
    }
}

/// The id of the order a mirrored fill hangs on: `po-{entrust_no}` (the same
/// report ingested twice writes the same order).
pub fn mirror_order_id(entrust_no: &str) -> (r: String)
    ensures
        r@ == "po-"@ + entrust_no@,
{
    let mut s = String::from_str("po-");
    s.append(entrust_no);
    s
}

/// The id of a mirrored fill: `pf-{signal_id}-{entrust_no}`.
pub fn mirror_fill_id(signal_id: &str, entrust_no: &str) -> (r: String)
    ensures
        r@ == "pf-"@ + signal_id@ + "-"@ + entrust_no@,
{
    let mut s = String::from_str("pf-");
    s.append(signal_id);
    s.append("-");
    s.append(entrust_no);
    s
}

/// The id of a mirrored account's daily NAV snapshot: `pns-{account}-{YYYYMMDD}`.
pub fn mirror_snapshot_id(account_id: &str, date: CivilDate) -> (r: String)
    requires
        date.wf(),
    ensures
        r@ == "pns-"@ + account_id@ + "-"@ + compact_text(date),
{
    let mut s = String::from_str("pns-");
    s.append(account_id);
    s.append("-");
    s.append(compact_date_text(date).as_str());
    s
}

/// The mailbox login of a channel: its user and password when both are
/// configured; otherwise the channel is skipped with this error.
pub fn mailbox_credentials(channel_name: &str, user: Option<String>, pwd: Option<String>) -> (r: Result<(String, String), String>)
    ensures
        (user is Some && pwd is Some) ==> (r is Ok && r->Ok_0.0@ == user->0@ && r->Ok_0.1@ == pwd->0@),
        !(user is Some && pwd is Some) ==> (r is Err && r->Err_0@ == "通道["@ + channel_name@
            + "] 未配置 imap_user/imap_pwd, 跳过拉取(在 ptrade_channel_config 配置后启用)"@),
{
    match (user, pwd) {
        (Some(u), Some(p)) => Ok((u, p)),
        _ => {
            let mut e = String::from_str("通道[");
            e.append(channel_name);
            e.append("] 未配置 imap_user/imap_pwd, 跳过拉取(在 ptrade_channel_config 配置后启用)");
            Err(e)
        },
    }
}

/// The English abbreviation of a month (1 to 12).
pub open spec fn month_abbr(m: int) -> Seq<char> {
    if m == 1 {
        "Jan"@
    } else if m == 2 {
        "Feb"@
    } else if m == 3 {
        "Mar"@
    } else if m == 4 {
        "Apr"@
    } else if m == 5 {
        "May"@
    } else if m == 6 {
        "Jun"@
    } else if m == 7 {
        "Jul"@
    } else if m == 8 {
        "Aug"@
    } else if m == 9 {
        "Sep"@
    } else if m == 10 {
        "Oct"@
    } else if m == 11 {
        "Nov"@
    } else {
        "Dec"@
    }
}

fn month_name(m: u32) -> (r: &'static str)
    ensures
        r@ == month_abbr(m as int),
{
    if m == 1 {
        "Jan"
    } else if m == 2 {
        "Feb"
    } else if m == 3 {
        "Mar"
    } else if m == 4 {
        "Apr"
    } else if m == 5 {
        "May"
    } else if m == 6 {
        "Jun"
    } else if m == 7 {
        "Jul"
    } else if m == 8 {
        "Aug"
    } else if m == 9 {
        "Sep"
    } else if m == 10 {
        "Oct"
    } else if m == 11 {
        "Nov"
    } else {
        "Dec"
    }
}

/// Law: the month of an IMAP search date is the English abbreviation of the
/// date's month, January being month 1 and December month 12.
pub proof fn law_imap_month_names(m: int)
    requires
        1 <= m <= 12,
    ensures
        month_abbr(m) == seq![
            "Jan"@, "Feb"@, "Mar"@, "Apr"@, "May"@, "Jun"@,
            "Jul"@, "Aug"@, "Sep"@, "Oct"@, "Nov"@, "Dec"@,
        ][m - 1],
{
}

/// The `DD-Mon-YYYY` date of an IMAP `SINCE` search, with English month names
/// (independent of any locale).
pub fn imap_search_date(d: CivilDate) -> (r: String)
    requires
        d.wf(),
    ensures
        r@ == dec_padded(d.day as nat, 2) + "-"@ + month_abbr(d.month as int) + "-"@ + dec_signed(
            d.year as int,
        ),
{
    let mut s = String::new();
    push_dec_padded(&mut s, d.day as u64, 2);
    s.append("-");
    s.append(month_name(d.month));
    s.append("-");
    push_dec_signed(&mut s, d.year as i64);
    s
}

/// What a fetched mail is.
#[derive(Debug, Clone, Copy, PartialEq, Eq, Structural)]
pub enum MailKind {
    /// Older than yesterday, undated, or not a report: ignored.
    Skip,
    /// A heartbeat of the broker-side strategy.
    Heartbeat,
    /// An execution report carrying a JSON attachment.
    Exec,
}

/// How a mail with this subject is handled: only subjects dated yesterday or
/// later are read (the server's `SINCE` match is loose); of those, heartbeats and
/// execution reports are kept.
pub open spec fn mail_kind_spec(subject: Seq<char>, yesterday: CivilDate) -> MailKind {
    match chrono_parse_compact(after_last(subject, '_')) {
        None => MailKind::Skip,
        Some(t) => if (CivilDate { year: t.0, month: t.1, day: t.2 }).before(yesterday) {
            MailKind::Skip
        } else if has_prefix(subject, "ptrade_heartbeat_"@) {
            MailKind::Heartbeat
        } else if has_prefix(subject, "ptrade_exec_"@) {
            MailKind::Exec
        } else {
            MailKind::Skip
        },
    }
}

/// Classifies a fetched mail by its subject.
pub fn classify_mail(subject: &str, yesterday: CivilDate) -> (r: MailKind)
    ensures
        r == mail_kind_spec(subject@, yesterday),
{
    match subject_date(subject) {
        None => MailKind::Skip,
        Some(d) => if date_before(&d, &yesterday) {
            MailKind::Skip
        } else if starts_with(subject, "ptrade_heartbeat_") {
            MailKind::Heartbeat
        } else if starts_with(subject, "ptrade_exec_") {
            MailKind::Exec
        } else {
            MailKind::Skip
        },
    }
}

/// The lines of a channel's report: the fetch warning, one line per
/// heartbeat, then the outcome line of each execution report.
pub open spec fn report_lines(fetch_error: Option<Seq<char>>, heartbeats: Seq<Seq<char>>, exec_lines: Seq<Seq<char>>) -> Seq<Seq<char>> {
    (match fetch_error {
        Some(e) => seq!["⚠️ 拉取部分异常: "@ + e],
        None => Seq::empty(),
    }) + heartbeats.map_values(|h: Seq<char>| "🫀 心跳: "@ + h) + exec_lines
}

/// A channel's section of the daily report: an alarm when the day brought
/// neither an execution report nor a heartbeat, otherwise the title and lines.
pub open spec fn report_section_spec(channel: Seq<char>, fetch_error: Option<Seq<char>>, heartbeats: Seq<Seq<char>>, exec_lines: Seq<Seq<char>>) -> Seq<char> {
    if heartbeats.len() == 0 && exec_lines.len() == 0 {
        "⚠️ [PTrade实盘日报·"@ + channel
            + "] 当日无 exec 回报且无心跳邮件——请检查 PTrade 策略状态与邮件通道(策略挂了? 15:00 后未发?)"@
    } else {
        "📊 [PTrade实盘日报·"@ + channel + "]\n"@ + joined(
            report_lines(fetch_error, heartbeats, exec_lines),
            "\n"@,
        )
    }
}

/// Builds a channel's section of the daily report from the fetch warning, the
/// heartbeat subjects and the outcome line of each execution report.
pub fn daily_report_section(
    channel: &str,
    fetch_error: Option<String>,
    heartbeats: &Vec<String>,
    exec_lines: &Vec<String>,
) -> (r: String)
    ensures
        r@ == report_section_spec(
            channel@,
            match fetch_error {
                Some(e) => Some(e@),
                None => None,
            },
            strings_view(heartbeats@),
            strings_view(exec_lines@),
        ),
{
    if heartbeats.len() == 0 && exec_lines.len() == 0 {
        let mut s = String::from_str("⚠️ [PTrade实盘日报·");
        s.append(channel);
        s.append("] 当日无 exec 回报且无心跳邮件——请检查 PTrade 策略状态与邮件通道(策略挂了? 15:00 后未发?)");
        return s;
    }
    let ghost fe = match &fetch_error {
        Some(e) => Some(e@),
        None => None,
    };
    let ghost hv = strings_view(heartbeats@);
    let ghost ev = strings_view(exec_lines@);
    let mut lines: Vec<String> = Vec::new();
    match fetch_error {
        Some(e) => {
            let mut l = String::from_str("⚠️ 拉取部分异常: ");
            l.append(e.as_str());
            lines.push(l);
        },
        None => {},
    }
    let ghost head = strings_view(lines@);
    proof {
        assert(head =~= (match fe {
            Some(e) => seq!["⚠️ 拉取部分异常: "@ + e],
            None => Seq::<Seq<char>>::empty(),
        }));
    }
    let mut i: usize = 0;
    while i < heartbeats.len()
        invariant
            0 <= i <= heartbeats@.len(),
            hv == strings_view(heartbeats@),
            strings_view(lines@) == head + hv.take(i as int).map_values(|h: Seq<char>| "🫀 心跳: "@ + h),
        decreases heartbeats.len() - i,
    {
        let ghost prev = lines@;
        let mut l = String::from_str("🫀 心跳: ");
        l.append(heartbeats[i].as_str());
        lines.push(l);
        proof {
            assert(hv.take(i + 1).map_values(|h: Seq<char>| "🫀 心跳: "@ + h) =~= hv.take(
                i as int,
            ).map_values(|h: Seq<char>| "🫀 心跳: "@ + h).push("🫀 心跳: "@ + hv[i as int]));
            assert(strings_view(lines@) =~= strings_view(prev).push("🫀 心跳: "@ + hv[i as int]));
        }
        i = i + 1;
    }
    proof {
        assert(hv.take(hv.len() as int) =~= hv);
    }
    let ghost mid = strings_view(lines@);
    let mut j: usize = 0;
    while j < exec_lines.len()
        invariant
            0 <= j <= exec_lines@.len(),
            ev == strings_view(exec_lines@),
            strings_view(lines@) == mid + ev.take(j as int),
        decreases exec_lines.len() - j,
    {
        let ghost prev = lines@;
        lines.push(exec_lines[j].clone());
        proof {
            assert(ev.take(j + 1) =~= ev.take(j as int).push(ev[j as int]));
            assert(strings_view(lines@) =~= strings_view(prev).push(ev[j as int]));
        }
        j = j + 1;
    }
    proof {
        assert(ev.take(ev.len() as int) =~= ev);
        assert(strings_view(lines@) =~= report_lines(fe, hv, ev));
        assert(lines@.map_values(|t: String| t@) =~= strings_view(lines@));
    }
    let body = crate::text::join(&lines, "\n");
    let mut s = String::from_str("📊 [PTrade实盘日报·");
    s.append(channel);
    s.append("]\n");
    s.append(body.as_str());
    s
}

} // verus!
