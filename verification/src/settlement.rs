//! Balance-delta settlement.
//!
//! The harvest trigger samples the externally visible account balance just
//! before fan-out and again just after call issuance, and pays the triggering
//! principal a 5% share of the increase once it exceeds a fixed threshold.
//! Issuance is non-blocking, so the delta reflects only the synchronous
//! balance effects of issuing the calls, not the harvested rewards
//! themselves; that window is a documented approximation of the current
//! behaviour, and this function is the seam where a corrected two-phase
//! delta could be substituted without touching the orchestrator.

use vstd::prelude::*;

verus! {

/// The delta threshold, in the smallest currency unit (2 native units).
pub const INCENTIVE_THRESHOLD_YOCTO: u128 = 2_000_000_000_000_000_000_000_000;

/// The caller's share of the delta, in percent.
pub const INCENTIVE_SHARE_PERCENT: u128 = 5;

/// A direct transfer owed to the triggering principal.
pub struct IncentiveTransfer {
    pub receiver: String,
    pub amount: u128,
}

/// The mathematical value of an [`IncentiveTransfer`].
pub ghost struct IncentiveTransferView {
    pub receiver: Seq<char>,
    pub amount: u128,
}

impl View for IncentiveTransfer {
    type V = IncentiveTransferView;

    open spec fn view(&self) -> IncentiveTransferView {
        IncentiveTransferView { receiver: self.receiver@, amount: self.amount }
    }
}

/// The transfer owed for a balance increase from `pre` to `post`, if any:
/// 5% of the delta, to the caller, once the delta exceeds the threshold.
pub open spec fn spec_settlement(pre: u128, post: u128, caller: Seq<char>) -> Option<
    IncentiveTransferView,
> {
    if post - pre > INCENTIVE_THRESHOLD_YOCTO {
        Some(
            IncentiveTransferView {
                receiver: caller,
                amount: ((post - pre) * INCENTIVE_SHARE_PERCENT / 100) as u128,
            },
        )
    } else {
        None
    }
}

/// The mathematical value of an optional transfer.
pub open spec fn transfer_opt_view(t: Option<IncentiveTransfer>) -> Option<IncentiveTransferView> {
    match t {
        Some(tr) => Some(tr@),
        None => None,
    }
}

/// Settle the balance delta of one harvest trigger: above the threshold the
/// caller is owed a single unconditional transfer of 5% of the delta;
/// at or below it, nothing.
pub fn settle_balance_delta(pre_balance: u128, post_balance: u128, caller: &str) -> (t: Option<
    IncentiveTransfer,
>)
    requires
        pre_balance <= post_balance,
        post_balance - pre_balance <= u128::MAX / INCENTIVE_SHARE_PERCENT,
    ensures
        transfer_opt_view(t) == spec_settlement(pre_balance, post_balance, caller@),
{
    let delta = post_balance - pre_balance;
    if delta > INCENTIVE_THRESHOLD_YOCTO {
        let share = delta * INCENTIVE_SHARE_PERCENT / 100;
        Some(IncentiveTransfer { receiver: String::from_str(caller), amount: share })
    } else {
        None
    }
}

} // verus!
