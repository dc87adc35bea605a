//! The texts of the data-quality alert.
use vstd::prelude::*;
use vstd::string::*;
use crate::text::{dec, joined, push_dec, strings_view};

verus! {

/// The data-quality alert listing the gaps found, one bullet each; no alert
/// when there is no gap.
pub fn quality_alert_text(gaps: &Vec<String>) -> (r: Option<String>)
    ensures
        gaps@.len() == 0 ==> r is None,
        gaps@.len() > 0 ==> (r is Some && r->0@ == "## ⚠️ 数据质量告警\n\n发现 "@ + dec(
            gaps@.len() as nat,
        ) + " 个数据缺口:\n- "@ + joined(strings_view(gaps@), "\n- "@) + "\n\n请检查数据同步状态。"@),
{
    if gaps.len() == 0 {
        return None;
    }
    let mut s = String::from_str("## ⚠️ 数据质量告警\n\n发现 ");
    push_dec(&mut s, gaps.len() as u64);
    s.append(" 个数据缺口:\n- ");
    let body = crate::text::join(gaps, "\n- ");
    proof {
        assert(gaps@.map_values(|t: String| t@) =~= strings_view(gaps@));
    }
    s.append(body.as_str());
    s.append("\n\n请检查数据同步状态。");
    Some(s)
}

} // verus!
