//! Who may change a user strategy: only its owner may update or delete it,
//! and a strategy is shown as `me` to its owner and by owner id to others.
use vstd::prelude::*;
use vstd::string::*;
use crate::text::str_eq;

verus! {

/// The outcome of checking a write to a user strategy.
#[derive(Debug, Clone, Copy, PartialEq, Eq, Structural)]
pub enum OwnerCheck {
    /// The caller owns the strategy.
    Allowed,
    /// The strategy belongs to someone else (403).
    Forbidden,
    /// No such user strategy, or the lookup failed (404).
    NotFound,
}

pub open spec fn owner_check_spec(owner: Option<Seq<char>>, user_id: Seq<char>) -> OwnerCheck {
    match owner {
        Some(o) => if o == user_id {
            OwnerCheck::Allowed
        } else {
            OwnerCheck::Forbidden
        },
        None => OwnerCheck::NotFound,
    }
}

/// Checks a write by `user_id` against the strategy's owner (`None` when the
/// strategy was not found or the lookup failed).
pub fn owner_check(owner: Option<&str>, user_id: &str) -> (r: OwnerCheck)
    ensures
        r == owner_check_spec(
            match owner {
                Some(o) => Some(o@),
                None => None,
            },
            user_id@,
        ),
{
    match owner {
        Some(o) => if str_eq(o, user_id) {
            OwnerCheck::Allowed
        } else {
            OwnerCheck::Forbidden
        },
        None => OwnerCheck::NotFound,
    }
}

/// The writes a user can make to a strategy.
#[derive(Debug, Clone, Copy, PartialEq, Eq, Structural)]
pub enum StrategyWrite {
    Update,
    Delete,
}

pub open spec fn denial_spec(check: OwnerCheck, write: StrategyWrite) -> Option<(i64, Seq<char>)> {
    match check {
        OwnerCheck::Allowed => None,
        OwnerCheck::Forbidden => match write {
            StrategyWrite::Update => Some((403, "只能修改自己的策略"@)),
            StrategyWrite::Delete => Some((403, "只能删除自己的策略"@)),
        },
        OwnerCheck::NotFound => Some((404, "策略不存在"@)),
    }
}

/// The error code and message answered for a refused write; `None` when the
/// write may go ahead.
pub fn write_denial(check: OwnerCheck, write: StrategyWrite) -> (r: Option<(i64, String)>)
    ensures
        match (r, denial_spec(check, write)) {
            (None, None) => true,
            (Some(d), Some(e)) => d.0 == e.0 && d.1@ == e.1,
            _ => false,
        },
{
    match check {
        OwnerCheck::Allowed => None,
        OwnerCheck::Forbidden => match write {
            StrategyWrite::Update => Some((403, String::from_str("只能修改自己的策略"))),
            StrategyWrite::Delete => Some((403, String::from_str("只能删除自己的策略"))),
        },
        OwnerCheck::NotFound => Some((404, String::from_str("策略不存在"))),
    }
}

/// Law: a write goes ahead exactly when the caller owns the strategy.
pub proof fn law_only_owner_writes(owner: Option<Seq<char>>, user_id: Seq<char>, write: StrategyWrite)
    ensures
        denial_spec(owner_check_spec(owner, user_id), write) is None <==> owner == Some(user_id),
{
}

/// How a user strategy's owner is shown to `user_id`: `me` for their own,
/// otherwise the owner's id.
pub fn owner_label(owner_id: &str, user_id: &str) -> (r: String)
    ensures
        r@ == (if owner_id@ == user_id@ { "me"@ } else { owner_id@ }),
{
    if str_eq(owner_id, user_id) {
        String::from_str("me")
    } else {
        owner_id.to_owned()
    }
}

} // verus!
