//! The call-chain builder.
//!
//! For each qualifying strategy record (active, with a service identity that
//! satisfies the account grammar) the harvest workflow issues two independent
//! chains — claim all rewards, and claim from the process-wide lending
//! market — and the reinvest workflow issues one chain chosen by the record's
//! reinvest target. Every chain's terminal step is a self-addressed
//! reconciliation callback carrying the originating (service, action) pair.
//! An active record whose service identity does not satisfy the grammar is
//! skipped with a diagnostic note; this is per-record and never fails the
//! batch.

use vstd::prelude::*;

use crate::account::{is_valid_account_id, valid_account_id};
use crate::decimal::{spec_decimal, u128_to_decimal};
use crate::useraccs::{prefs_seq_view, users_seq_view, Preference, PreferenceView, ReinvestTarget, User, UserView};

verus! {

/// Gas allowance, in Tgas, of a harvest service call.
pub const SERVICE_CALL_TGAS: u64 = 130;

/// Gas allowance, in Tgas, of a reinvest service call.
pub const REINVEST_CALL_TGAS: u64 = 120;

/// Gas allowance, in Tgas, of a reconciliation callback.
pub const CALLBACK_TGAS: u64 = 10;

/// The gas hint carried inside every call payload.
pub const PAYLOAD_GAS_HINT: u64 = 50;

/// The fixed receiver of the stake-via-swap call.
pub const STAKE_RECEIVER_ID: &'static str = "xtoken.ref-finance.near";

/// The outcome of one settled chain, as observed by its callback.
#[derive(Clone, Copy, PartialEq, Eq, Structural, Debug)]
pub enum ChainOutcome {
    Success,
    Failed,
}

/// The structured payload of a service call, one shape per action.
pub enum CallArgs {
    ClaimAllRewards { seed_id: String, neargas: u64, tokenid: String },
    ClaimFromBurrow { neargas: u64 },
    DepositIntoBurrow { deposit_amount: String, neargas: u64 },
    StakeXRef {
        smart_contract_name: String,
        deposit_amount: String,
        neargas: u64,
        receiver_id: String,
        min_amount_out: String,
        pool_id: String,
    },
}

/// The mathematical value of a [`CallArgs`].
pub ghost enum CallArgsView {
    ClaimAllRewards { seed_id: Seq<char>, neargas: u64, tokenid: Seq<char> },
    ClaimFromBurrow { neargas: u64 },
    DepositIntoBurrow { deposit_amount: Seq<char>, neargas: u64 },
    StakeXRef {
        smart_contract_name: Seq<char>,
        deposit_amount: Seq<char>,
        neargas: u64,
        receiver_id: Seq<char>,
        min_amount_out: Seq<char>,
        pool_id: Seq<char>,
    },
}

impl View for CallArgs {
    type V = CallArgsView;

    open spec fn view(&self) -> CallArgsView {
        match self {
            CallArgs::ClaimAllRewards { seed_id, neargas, tokenid } => CallArgsView::ClaimAllRewards {
                seed_id: seed_id@,
                neargas: *neargas,
                tokenid: tokenid@,
            },
            CallArgs::ClaimFromBurrow { neargas } => CallArgsView::ClaimFromBurrow {
                neargas: *neargas,
            },
            CallArgs::DepositIntoBurrow { deposit_amount, neargas } => CallArgsView::DepositIntoBurrow {
                deposit_amount: deposit_amount@,
                neargas: *neargas,
            },
            CallArgs::StakeXRef {
                smart_contract_name,
                deposit_amount,
                neargas,
                receiver_id,
                min_amount_out,
                pool_id,
            } => CallArgsView::StakeXRef {
                smart_contract_name: smart_contract_name@,
                deposit_amount: deposit_amount@,
                neargas: *neargas,
                receiver_id: receiver_id@,
                min_amount_out: min_amount_out@,
                pool_id: pool_id@,
            },
        }
    }
}

/// The self-addressed reconciliation step chained after a service call,
/// carrying the originating (service, action) pair.
pub struct ReconcileCallback {
    pub method: String,
    pub contract_name: String,
    pub action: String,
    pub gas_tgas: u64,
}

/// The mathematical value of a [`ReconcileCallback`].
pub ghost struct ReconcileCallbackView {
    pub method: Seq<char>,
    pub contract_name: Seq<char>,
    pub action: Seq<char>,
    pub gas_tgas: u64,
}

impl View for ReconcileCallback {
    type V = ReconcileCallbackView;

    open spec fn view(&self) -> ReconcileCallbackView {
        ReconcileCallbackView {
            method: self.method@,
            contract_name: self.contract_name@,
            action: self.action@,
            gas_tgas: self.gas_tgas,
        }
    }
}

/// One issued chain: a service call followed by its reconciliation callback.
pub struct CallChain {
    pub target: String,
    pub method: String,
    pub args: CallArgs,
    pub attached_amount: u128,
    pub gas_tgas: u64,
    pub callback: ReconcileCallback,
}

/// The mathematical value of a [`CallChain`].
pub ghost struct CallChainView {
    pub target: Seq<char>,
    pub method: Seq<char>,
    pub args: CallArgsView,
    pub attached_amount: u128,
    pub gas_tgas: u64,
    pub callback: ReconcileCallbackView,
}

impl View for CallChain {
    type V = CallChainView;

    open spec fn view(&self) -> CallChainView {
        CallChainView {
            target: self.target@,
            method: self.method@,
            args: self.args@,
            attached_amount: self.attached_amount,
            gas_tgas: self.gas_tgas,
            callback: self.callback@,
        }
    }
}

/// The chain list as a sequence of mathematical values.
pub open spec fn chains_view(cs: Seq<CallChain>) -> Seq<CallChainView> {
    cs.map_values(|c: CallChain| c@)
}

/// The note list as a sequence of character sequences.
pub open spec fn notes_view(ns: Seq<String>) -> Seq<Seq<char>> {
    ns.map_values(|n: String| n@)
}

/// A record takes part in fan-out when it is active and its service identity
/// satisfies the account grammar.
pub open spec fn record_qualifies(p: PreferenceView) -> bool {
    p.is_active && valid_account_id(p.smart_contract_name)
}

/// An active record whose service identity does not resolve is skipped.
pub open spec fn record_skipped(p: PreferenceView) -> bool {
    p.is_active && !valid_account_id(p.smart_contract_name)
}

/// The diagnostic emitted for a skipped record.
pub open spec fn parse_failure_note(name: Seq<char>) -> Seq<char> {
    "Failed to parse smart_contract_name: "@ + name
}

/// The claim-all-rewards chain of a record.
pub open spec fn claim_rewards_chain(p: PreferenceView) -> CallChainView {
    CallChainView {
        target: p.smart_contract_name,
        method: "claim_all_rewards"@,
        args: CallArgsView::ClaimAllRewards {
            seed_id: p.seed_id,
            neargas: PAYLOAD_GAS_HINT,
            tokenid: p.token_id,
        },
        attached_amount: 0,
        gas_tgas: SERVICE_CALL_TGAS,
        callback: ReconcileCallbackView {
            method: "handle_claim_result"@,
            contract_name: p.smart_contract_name,
            action: "claim_all_rewards"@,
            gas_tgas: CALLBACK_TGAS,
        },
    }
}

/// The claim-from-lending-market chain of a record.
pub open spec fn claim_burrow_chain(p: PreferenceView) -> CallChainView {
    CallChainView {
        target: p.smart_contract_name,
        method: "claim_from_burrow"@,
        args: CallArgsView::ClaimFromBurrow { neargas: PAYLOAD_GAS_HINT },
        attached_amount: 0,
        gas_tgas: SERVICE_CALL_TGAS,
        callback: ReconcileCallbackView {
            method: "handle_claim_result"@,
            contract_name: p.smart_contract_name,
            action: "claim_from_burrow"@,
            gas_tgas: CALLBACK_TGAS,
        },
    }
}

/// The single reinvest chain of a record, selected by its reinvest target,
/// with the whole investable amount attached.
pub open spec fn reinvest_chain(
    p: PreferenceView,
    amount: u128,
    min_amount_out: Seq<char>,
    pool_id: Seq<char>,
) -> CallChainView {
    match p.reinvest_to {
        ReinvestTarget::Burrow => CallChainView {
            target: p.smart_contract_name,
            method: "deposit_into_burrow"@,
            args: CallArgsView::DepositIntoBurrow {
                deposit_amount: spec_decimal(amount as nat),
                neargas: PAYLOAD_GAS_HINT,
            },
            attached_amount: amount,
            gas_tgas: REINVEST_CALL_TGAS,
            callback: ReconcileCallbackView {
                method: "handle_reinvest_result"@,
                contract_name: p.smart_contract_name,
                action: "deposit_into_burrow"@,
                gas_tgas: CALLBACK_TGAS,
            },
        },
        ReinvestTarget::Stake => CallChainView {
            target: p.smart_contract_name,
            method: "stake_xRef"@,
            args: CallArgsView::StakeXRef {
                smart_contract_name: p.smart_contract_name,
                deposit_amount: spec_decimal(amount as nat),
                neargas: PAYLOAD_GAS_HINT,
                receiver_id: STAKE_RECEIVER_ID@,
                min_amount_out,
                pool_id,
            },
            attached_amount: amount,
            gas_tgas: REINVEST_CALL_TGAS,
            callback: ReconcileCallbackView {
                method: "handle_reinvest_result"@,
                contract_name: p.smart_contract_name,
                action: "stake_xRef"@,
                gas_tgas: CALLBACK_TGAS,
            },
        },
    }
}

/// The harvest chains of a record list, in record order.
pub open spec fn harvest_chains_of_prefs(ps: Seq<PreferenceView>) -> Seq<CallChainView>
    decreases ps.len(),
{
    if ps.len() == 0 {
        Seq::empty()
    } else {
        harvest_chains_of_prefs(ps.drop_last()) + (if record_qualifies(ps.last()) {
            seq![claim_rewards_chain(ps.last()), claim_burrow_chain(ps.last())]
        } else {
            Seq::empty()
        })
    }
}

/// The skip notes of a record list, in record order. The same records are
/// skipped by both workflows.
pub open spec fn skipped_notes_of_prefs(ps: Seq<PreferenceView>) -> Seq<Seq<char>>
    decreases ps.len(),
{
    if ps.len() == 0 {
        Seq::empty()
    } else {
        skipped_notes_of_prefs(ps.drop_last()) + (if record_skipped(ps.last()) {
            seq![parse_failure_note(ps.last().smart_contract_name)]
        } else {
            Seq::empty()
        })
    }
}

/// The reinvest chains of a record list, in record order.
pub open spec fn reinvest_chains_of_prefs(
    ps: Seq<PreferenceView>,
    amount: u128,
    min_amount_out: Seq<char>,
    pool_id: Seq<char>,
) -> Seq<CallChainView>
    decreases ps.len(),
{
    if ps.len() == 0 {
        Seq::empty()
    } else {
        reinvest_chains_of_prefs(ps.drop_last(), amount, min_amount_out, pool_id) + (
        if record_qualifies(ps.last()) {
            seq![reinvest_chain(ps.last(), amount, min_amount_out, pool_id)]
        } else {
            Seq::empty()
        })
    }
}

/// The harvest chains of the whole registry, in participant order.
pub open spec fn harvest_chains_of_users(us: Seq<UserView>) -> Seq<CallChainView>
    decreases us.len(),
{
    if us.len() == 0 {
        Seq::empty()
    } else {
        harvest_chains_of_users(us.drop_last()) + harvest_chains_of_prefs(us.last().preferences)
    }
}

/// The skip notes of the whole registry, in participant order.
pub open spec fn skipped_notes_of_users(us: Seq<UserView>) -> Seq<Seq<char>>
    decreases us.len(),
{
    if us.len() == 0 {
        Seq::empty()
    } else {
        skipped_notes_of_users(us.drop_last()) + skipped_notes_of_prefs(us.last().preferences)
    }
}

/// The reinvest chains of the whole registry, in participant order.
pub open spec fn reinvest_chains_of_users(
    us: Seq<UserView>,
    amount: u128,
    min_amount_out: Seq<char>,
    pool_id: Seq<char>,
) -> Seq<CallChainView>
    decreases us.len(),
{
    if us.len() == 0 {
        Seq::empty()
    } else {
        reinvest_chains_of_users(us.drop_last(), amount, min_amount_out, pool_id)
            + reinvest_chains_of_prefs(us.last().preferences, amount, min_amount_out, pool_id)
    }
}

fn claim_rewards_call(p: &Preference) -> (c: CallChain)
    ensures
        c@ == claim_rewards_chain(p@),
{
    CallChain {
        target: p.smart_contract_name.clone(),
        method: String::from_str("claim_all_rewards"),
        args: CallArgs::ClaimAllRewards {
            seed_id: p.seed_id.clone(),
            neargas: PAYLOAD_GAS_HINT,
            tokenid: p.token_id.clone(),
        },
        attached_amount: 0,
        gas_tgas: SERVICE_CALL_TGAS,
        callback: ReconcileCallback {
            method: String::from_str("handle_claim_result"),
            contract_name: p.smart_contract_name.clone(),
            action: String::from_str("claim_all_rewards"),
            gas_tgas: CALLBACK_TGAS,
        },
    }
}

fn claim_burrow_call(p: &Preference) -> (c: CallChain)
    ensures
        c@ == claim_burrow_chain(p@),
{
    CallChain {
        target: p.smart_contract_name.clone(),
        method: String::from_str("claim_from_burrow"),
        args: CallArgs::ClaimFromBurrow { neargas: PAYLOAD_GAS_HINT },
        attached_amount: 0,
        gas_tgas: SERVICE_CALL_TGAS,
        callback: ReconcileCallback {
            method: String::from_str("handle_claim_result"),
            contract_name: p.smart_contract_name.clone(),
            action: String::from_str("claim_from_burrow"),
            gas_tgas: CALLBACK_TGAS,
        },
    }
}

fn reinvest_call(p: &Preference, amount: u128, amount_text: &String, min_amount_out: &str, pool_id: &str) -> (c:
    CallChain)
    requires
        amount_text@ == spec_decimal(amount as nat),
    ensures
        c@ == reinvest_chain(p@, amount, min_amount_out@, pool_id@),
{
    match p.reinvest_to {
        ReinvestTarget::Burrow => CallChain {
            target: p.smart_contract_name.clone(),
            method: String::from_str("deposit_into_burrow"),
            args: CallArgs::DepositIntoBurrow {
                deposit_amount: amount_text.clone(),
                neargas: PAYLOAD_GAS_HINT,
            },
            attached_amount: amount,
            gas_tgas: REINVEST_CALL_TGAS,
            callback: ReconcileCallback {
                method: String::from_str("handle_reinvest_result"),
                contract_name: p.smart_contract_name.clone(),
                action: String::from_str("deposit_into_burrow"),
                gas_tgas: CALLBACK_TGAS,
            },
        },
        ReinvestTarget::Stake => CallChain {
            target: p.smart_contract_name.clone(),
            method: String::from_str("stake_xRef"),
            args: CallArgs::StakeXRef {
                smart_contract_name: p.smart_contract_name.clone(),
                deposit_amount: amount_text.clone(),
                neargas: PAYLOAD_GAS_HINT,
                receiver_id: String::from_str(STAKE_RECEIVER_ID),
                min_amount_out: String::from_str(min_amount_out),
                pool_id: String::from_str(pool_id),
            },
            attached_amount: amount,
            gas_tgas: REINVEST_CALL_TGAS,
            callback: ReconcileCallback {
                method: String::from_str("handle_reinvest_result"),
                contract_name: p.smart_contract_name.clone(),
                action: String::from_str("stake_xRef"),
                gas_tgas: CALLBACK_TGAS,
            },
        },
    }
}

fn parse_failure_text(p: &Preference) -> (n: String)
    ensures
        n@ == parse_failure_note(p.smart_contract_name@),
{
    String::from_str("Failed to parse smart_contract_name: ").concat(
        p.smart_contract_name.as_str(),
    )
}

fn build_harvest_for_prefs(prefs: &Vec<Preference>) -> (r: (Vec<CallChain>, Vec<String>))
    ensures
        chains_view(r.0@) == harvest_chains_of_prefs(prefs_seq_view(prefs@)),
        notes_view(r.1@) == skipped_notes_of_prefs(prefs_seq_view(prefs@)),
{
    let ghost pv = prefs_seq_view(prefs@);
    let mut chains: Vec<CallChain> = Vec::new();
    let mut skipped: Vec<String> = Vec::new();
    let mut i: usize = 0;
    proof {
        assert(chains_view(chains@) =~= harvest_chains_of_prefs(pv.take(0)));
        assert(notes_view(skipped@) =~= skipped_notes_of_prefs(pv.take(0)));
    }
    while i < prefs.len()
        invariant
            0 <= i <= prefs@.len(),
            pv == prefs_seq_view(prefs@),
            pv.len() == prefs@.len(),
            chains_view(chains@) == harvest_chains_of_prefs(pv.take(i as int)),
            notes_view(skipped@) == skipped_notes_of_prefs(pv.take(i as int)),
        decreases prefs@.len() - i,
    {
        let ghost prior_chains = chains_view(chains@);
        let ghost prior_notes = notes_view(skipped@);
        proof {
            assert(pv[i as int] == prefs@[i as int]@);
            assert(pv.take(i as int + 1).drop_last() =~= pv.take(i as int));
            assert(pv.take(i as int + 1).last() == pv[i as int]);
        }
        let p = &prefs[i];
        if p.is_active {
            if is_valid_account_id(p.smart_contract_name.as_str()) {
                let first = claim_rewards_call(p);
                let second = claim_burrow_call(p);
                let ghost first_view = first@;
                let ghost second_view = second@;
                chains.push(first);
                chains.push(second);
                proof {
                    assert(record_qualifies(pv[i as int]));
                    assert(chains_view(chains@) =~= prior_chains + seq![
                        first_view,
                        second_view,
                    ]);
                    assert(notes_view(skipped@) =~= skipped_notes_of_prefs(
                        pv.take(i as int + 1),
                    ));
                }
            } else {
                let note = parse_failure_text(p);
                let ghost note_view = note@;
                skipped.push(note);
                proof {
                    assert(record_skipped(pv[i as int]));
                    assert(notes_view(skipped@) =~= prior_notes + seq![note_view]);
                    assert(chains_view(chains@) =~= harvest_chains_of_prefs(
                        pv.take(i as int + 1),
                    ));
                }
            }
        } else {
            proof {
                assert(!record_qualifies(pv[i as int]) && !record_skipped(pv[i as int]));
                assert(chains_view(chains@) =~= harvest_chains_of_prefs(pv.take(i as int + 1)));
                assert(notes_view(skipped@) =~= skipped_notes_of_prefs(pv.take(i as int + 1)));
            }
        }
        i += 1;
    }
    proof {
        assert(pv.take(pv.len() as int) =~= pv);
    }
    (chains, skipped)
}

fn build_reinvest_for_prefs(
    prefs: &Vec<Preference>,
    amount: u128,
    amount_text: &String,
    min_amount_out: &str,
    pool_id: &str,
) -> (r: (Vec<CallChain>, Vec<String>))
    requires
        amount_text@ == spec_decimal(amount as nat),
    ensures
        chains_view(r.0@) == reinvest_chains_of_prefs(
            prefs_seq_view(prefs@),
            amount,
            min_amount_out@,
            pool_id@,
        ),
        notes_view(r.1@) == skipped_notes_of_prefs(prefs_seq_view(prefs@)),
{
    let ghost pv = prefs_seq_view(prefs@);
    let mut chains: Vec<CallChain> = Vec::new();
    let mut skipped: Vec<String> = Vec::new();
    let mut i: usize = 0;
    proof {
        assert(chains_view(chains@) =~= reinvest_chains_of_prefs(
            pv.take(0),
            amount,
            min_amount_out@,
            pool_id@,
        ));
        assert(notes_view(skipped@) =~= skipped_notes_of_prefs(pv.take(0)));
    }
    while i < prefs.len()
        invariant
            0 <= i <= prefs@.len(),
            pv == prefs_seq_view(prefs@),
            pv.len() == prefs@.len(),
            amount_text@ == spec_decimal(amount as nat),
            chains_view(chains@) == reinvest_chains_of_prefs(
                pv.take(i as int),
                amount,
                min_amount_out@,
                pool_id@,
            ),
            notes_view(skipped@) == skipped_notes_of_prefs(pv.take(i as int)),
        decreases prefs@.len() - i,
    {
        let ghost prior_chains = chains_view(chains@);
        let ghost prior_notes = notes_view(skipped@);
        proof {
            assert(pv[i as int] == prefs@[i as int]@);
            assert(pv.take(i as int + 1).drop_last() =~= pv.take(i as int));
            assert(pv.take(i as int + 1).last() == pv[i as int]);
        }
        let p = &prefs[i];
        if p.is_active {
            if is_valid_account_id(p.smart_contract_name.as_str()) {
                let step = reinvest_call(p, amount, amount_text, min_amount_out, pool_id);
                let ghost step_view = step@;
                chains.push(step);
                proof {
                    assert(record_qualifies(pv[i as int]));
                    assert(chains_view(chains@) =~= prior_chains + seq![step_view]);
                    assert(notes_view(skipped@) =~= skipped_notes_of_prefs(
                        pv.take(i as int + 1),
                    ));
                }
            } else {
                let note = parse_failure_text(p);
                let ghost note_view = note@;
                skipped.push(note);
                proof {
                    assert(record_skipped(pv[i as int]));
                    assert(notes_view(skipped@) =~= prior_notes + seq![note_view]);
                    assert(chains_view(chains@) =~= reinvest_chains_of_prefs(
                        pv.take(i as int + 1),
                        amount,
                        min_amount_out@,
                        pool_id@,
                    ));
                }
            }
        } else {
            proof {
                assert(!record_qualifies(pv[i as int]) && !record_skipped(pv[i as int]));
                assert(chains_view(chains@) =~= reinvest_chains_of_prefs(
                    pv.take(i as int + 1),
                    amount,
                    min_amount_out@,
                    pool_id@,
                ));
                assert(notes_view(skipped@) =~= skipped_notes_of_prefs(pv.take(i as int + 1)));
            }
        }
        i += 1;
    }
    proof {
        assert(pv.take(pv.len() as int) =~= pv);
    }
    (chains, skipped)
}

/// Build the harvest fan-out over the whole registry: two chains per
/// qualifying record, plus the diagnostic notes of the skipped records.
pub fn build_harvest_chains(users: &Vec<User>) -> (r: (Vec<CallChain>, Vec<String>))
    ensures
        chains_view(r.0@) == harvest_chains_of_users(users_seq_view(users@)),
        notes_view(r.1@) == skipped_notes_of_users(users_seq_view(users@)),
{
    let ghost uv = users_seq_view(users@);
    let mut chains: Vec<CallChain> = Vec::new();
    let mut skipped: Vec<String> = Vec::new();
    let mut i: usize = 0;
    proof {
        assert(chains_view(chains@) =~= harvest_chains_of_users(uv.take(0)));
        assert(notes_view(skipped@) =~= skipped_notes_of_users(uv.take(0)));
    }
    while i < users.len()
        invariant
            0 <= i <= users@.len(),
            uv == users_seq_view(users@),
            uv.len() == users@.len(),
            chains_view(chains@) == harvest_chains_of_users(uv.take(i as int)),
            notes_view(skipped@) == skipped_notes_of_users(uv.take(i as int)),
        decreases users@.len() - i,
    {
        let ghost prior_chains = chains_view(chains@);
        let ghost prior_notes = notes_view(skipped@);
        proof {
            assert(uv[i as int] == users@[i as int]@);
            assert(uv.take(i as int + 1).drop_last() =~= uv.take(i as int));
            assert(uv.take(i as int + 1).last() == uv[i as int]);
        }
        let (mut user_chains, mut user_notes) = build_harvest_for_prefs(&users[i].preferences);
        let ghost added_chains = chains_view(user_chains@);
        let ghost added_notes = notes_view(user_notes@);
        chains.append(&mut user_chains);
        skipped.append(&mut user_notes);
        proof {
            assert(uv[i as int].preferences == prefs_seq_view(users@[i as int].preferences@));
            assert(chains_view(chains@) =~= prior_chains + added_chains);
            assert(notes_view(skipped@) =~= prior_notes + added_notes);
            assert(chains_view(chains@) =~= harvest_chains_of_users(uv.take(i as int + 1)));
            assert(notes_view(skipped@) =~= skipped_notes_of_users(uv.take(i as int + 1)));
        }
        i += 1;
    }
    proof {
        assert(uv.take(uv.len() as int) =~= uv);
    }
    (chains, skipped)
}

/// Build the reinvest fan-out over the whole registry: one chain per
/// qualifying record, each carrying the whole investable `amount`, plus the
/// diagnostic notes of the skipped records.
pub fn build_reinvest_chains(
    users: &Vec<User>,
    amount: u128,
    min_amount_out: &str,
    pool_id: &str,
) -> (r: (Vec<CallChain>, Vec<String>))
    ensures
        chains_view(r.0@) == reinvest_chains_of_users(
            users_seq_view(users@),
            amount,
            min_amount_out@,
            pool_id@,
        ),
        notes_view(r.1@) == skipped_notes_of_users(users_seq_view(users@)),
{
    let amount_text = u128_to_decimal(amount);
    let ghost uv = users_seq_view(users@);
    let mut chains: Vec<CallChain> = Vec::new();
    let mut skipped: Vec<String> = Vec::new();
    let mut i: usize = 0;
    proof {
        assert(chains_view(chains@) =~= reinvest_chains_of_users(
            uv.take(0),
            amount,
            min_amount_out@,
            pool_id@,
        ));
        assert(notes_view(skipped@) =~= skipped_notes_of_users(uv.take(0)));
    }
    while i < users.len()
        invariant
            0 <= i <= users@.len(),
            uv == users_seq_view(users@),
            uv.len() == users@.len(),
            amount_text@ == spec_decimal(amount as nat),
            chains_view(chains@) == reinvest_chains_of_users(
                uv.take(i as int),
                amount,
                min_amount_out@,
                pool_id@,
            ),
            notes_view(skipped@) == skipped_notes_of_users(uv.take(i as int)),
        decreases users@.len() - i,
    {
        let ghost prior_chains = chains_view(chains@);
        let ghost prior_notes = notes_view(skipped@);
        proof {
            assert(uv[i as int] == users@[i as int]@);
            assert(uv.take(i as int + 1).drop_last() =~= uv.take(i as int));
            assert(uv.take(i as int + 1).last() == uv[i as int]);
        }
        let (mut user_chains, mut user_notes) = build_reinvest_for_prefs(
            &users[i].preferences,
            amount,
            &amount_text,
            min_amount_out,
            pool_id,
        );
        let ghost added_chains = chains_view(user_chains@);
        let ghost added_notes = notes_view(user_notes@);
        chains.append(&mut user_chains);
        skipped.append(&mut user_notes);
        proof {
            assert(uv[i as int].preferences == prefs_seq_view(users@[i as int].preferences@));
            assert(chains_view(chains@) =~= prior_chains + added_chains);
            assert(notes_view(skipped@) =~= prior_notes + added_notes);
            assert(chains_view(chains@) =~= reinvest_chains_of_users(
                uv.take(i as int + 1),
                amount,
                min_amount_out@,
                pool_id@,
            ));
            assert(notes_view(skipped@) =~= skipped_notes_of_users(uv.take(i as int + 1)));
        }
        i += 1;
    }
    proof {
        assert(uv.take(uv.len() as int) =~= uv);
    }
    (chains, skipped)
}

/// How many records of the list qualify for fan-out.
pub open spec fn count_qualifying(ps: Seq<PreferenceView>) -> int
    decreases ps.len(),
{
    if ps.len() == 0 {
        0
    } else {
        count_qualifying(ps.drop_last()) + if record_qualifies(ps.last()) {
            1int
        } else {
            0int
        }
    }
}

/// How many records of the whole registry qualify for fan-out.
pub open spec fn count_qualifying_users(us: Seq<UserView>) -> int
    decreases us.len(),
{
    if us.len() == 0 {
        0
    } else {
        count_qualifying_users(us.drop_last()) + count_qualifying(us.last().preferences)
    }
}

/// How many records of the list are active.
pub open spec fn count_active(ps: Seq<PreferenceView>) -> int
    decreases ps.len(),
{
    if ps.len() == 0 {
        0
    } else {
        count_active(ps.drop_last()) + if ps.last().is_active {
            1int
        } else {
            0int
        }
    }
}

/// How many records of the whole registry are active.
pub open spec fn count_active_users(us: Seq<UserView>) -> int
    decreases us.len(),
{
    if us.len() == 0 {
        0
    } else {
        count_active_users(us.drop_last()) + count_active(us.last().preferences)
    }
}

proof fn lemma_harvest_prefs_chain_count(ps: Seq<PreferenceView>)
    ensures
        harvest_chains_of_prefs(ps).len() == 2 * count_qualifying(ps),
    decreases ps.len(),
{
    if ps.len() > 0 {
        lemma_harvest_prefs_chain_count(ps.drop_last());
    }
}

/// The harvest fan-out issues exactly two chains per qualifying record.
pub proof fn lemma_harvest_chain_count(us: Seq<UserView>)
    ensures
        harvest_chains_of_users(us).len() == 2 * count_qualifying_users(us),
    decreases us.len(),
{
    if us.len() > 0 {
        lemma_harvest_chain_count(us.drop_last());
        lemma_harvest_prefs_chain_count(us.last().preferences);
    }
}

proof fn lemma_count_qualifying_is_active(ps: Seq<PreferenceView>)
    requires
        forall|k: int|
            0 <= k < ps.len() && (#[trigger] ps[k]).is_active ==> valid_account_id(
                ps[k].smart_contract_name,
            ),
    ensures
        count_qualifying(ps) == count_active(ps),
    decreases ps.len(),
{
    if ps.len() > 0 {
        assert(forall|k: int|
            0 <= k < ps.drop_last().len() ==> (#[trigger] ps.drop_last()[k]) == ps[k]);
        lemma_count_qualifying_is_active(ps.drop_last());
        assert(ps.last() == ps[ps.len() - 1]);
    }
}

/// When every active record's service identity satisfies the grammar, a
/// harvest over any registry issues exactly twice as many chains as there
/// are active records — two per record, independent of how the records are
/// spread over participants.
pub proof fn lemma_harvest_count_all_resolvable(us: Seq<UserView>)
    requires
        forall|i: int, k: int|
            0 <= i < us.len() && 0 <= k < (#[trigger] us[i]).preferences.len() && (
            #[trigger] us[i].preferences[k]).is_active ==> valid_account_id(
                us[i].preferences[k].smart_contract_name,
            ),
    ensures
        harvest_chains_of_users(us).len() == 2 * count_active_users(us),
    decreases us.len(),
{
    if us.len() > 0 {
        assert(forall|i: int|
            0 <= i < us.drop_last().len() ==> (#[trigger] us.drop_last()[i]) == us[i]);
        lemma_harvest_count_all_resolvable(us.drop_last());
        assert(us.last() == us[us.len() - 1]);
        lemma_harvest_prefs_chain_count(us.last().preferences);
        lemma_count_qualifying_is_active(us.last().preferences);
    }
}

proof fn lemma_harvest_prefs_callback_pairing(ps: Seq<PreferenceView>)
    ensures
        forall|k: int|
            0 <= k < harvest_chains_of_prefs(ps).len() ==> {
                let c = #[trigger] harvest_chains_of_prefs(ps)[k];
                c.callback.contract_name == c.target && c.callback.action == c.method
                    && c.callback.method == "handle_claim_result"@
            },
    decreases ps.len(),
{
    if ps.len() > 0 {
        lemma_harvest_prefs_callback_pairing(ps.drop_last());
    }
}

/// Every harvest chain's terminal callback carries the originating
/// (service, action) pair of its own chain, addressed to the harvest
/// reconciliation handler.
pub proof fn lemma_harvest_callback_pairing(us: Seq<UserView>)
    ensures
        forall|k: int|
            0 <= k < harvest_chains_of_users(us).len() ==> {
                let c = #[trigger] harvest_chains_of_users(us)[k];
                c.callback.contract_name == c.target && c.callback.action == c.method
                    && c.callback.method == "handle_claim_result"@
            },
    decreases us.len(),
{
    if us.len() > 0 {
        lemma_harvest_callback_pairing(us.drop_last());
        lemma_harvest_prefs_callback_pairing(us.last().preferences);
    }
}

proof fn lemma_reinvest_prefs_callback_pairing(
    ps: Seq<PreferenceView>,
    amount: u128,
    min_amount_out: Seq<char>,
    pool_id: Seq<char>,
)
    ensures
        forall|k: int|
            0 <= k < reinvest_chains_of_prefs(ps, amount, min_amount_out, pool_id).len() ==> {
                let c = #[trigger] reinvest_chains_of_prefs(ps, amount, min_amount_out, pool_id)[k];
                c.callback.contract_name == c.target && c.callback.action == c.method
                    && c.callback.method == "handle_reinvest_result"@
            },
    decreases ps.len(),
{
    if ps.len() > 0 {
        lemma_reinvest_prefs_callback_pairing(ps.drop_last(), amount, min_amount_out, pool_id);
    }
}

/// Every reinvest chain's terminal callback carries the originating
/// (service, action) pair of its own chain, addressed to the reinvest
/// reconciliation handler.
pub proof fn lemma_reinvest_callback_pairing(
    us: Seq<UserView>,
    amount: u128,
    min_amount_out: Seq<char>,
    pool_id: Seq<char>,
)
    ensures
        forall|k: int|
            0 <= k < reinvest_chains_of_users(us, amount, min_amount_out, pool_id).len() ==> {
                let c = #[trigger] reinvest_chains_of_users(us, amount, min_amount_out, pool_id)[k];
                c.callback.contract_name == c.target && c.callback.action == c.method
                    && c.callback.method == "handle_reinvest_result"@
            },
    decreases us.len(),
{
    if us.len() > 0 {
        lemma_reinvest_callback_pairing(us.drop_last(), amount, min_amount_out, pool_id);
        lemma_reinvest_prefs_callback_pairing(us.last().preferences, amount, min_amount_out, pool_id);
    }
}

proof fn lemma_reinvest_prefs_chain_count(
    ps: Seq<PreferenceView>,
    amount: u128,
    min_amount_out: Seq<char>,
    pool_id: Seq<char>,
)
    ensures
        reinvest_chains_of_prefs(ps, amount, min_amount_out, pool_id).len() == count_qualifying(ps),
    decreases ps.len(),
{
    if ps.len() > 0 {
        lemma_reinvest_prefs_chain_count(ps.drop_last(), amount, min_amount_out, pool_id);
    }
}

/// The reinvest fan-out issues exactly one chain per qualifying record.
pub proof fn lemma_reinvest_chain_count(
    us: Seq<UserView>,
    amount: u128,
    min_amount_out: Seq<char>,
    pool_id: Seq<char>,
)
    ensures
        reinvest_chains_of_users(us, amount, min_amount_out, pool_id).len()
            == count_qualifying_users(us),
    decreases us.len(),
{
    if us.len() > 0 {
        lemma_reinvest_chain_count(us.drop_last(), amount, min_amount_out, pool_id);
        lemma_reinvest_prefs_chain_count(us.last().preferences, amount, min_amount_out, pool_id);
    }
}

proof fn lemma_reinvest_prefs_attached_amount(
    ps: Seq<PreferenceView>,
    amount: u128,
    min_amount_out: Seq<char>,
    pool_id: Seq<char>,
)
    ensures
        forall|k: int|
            0 <= k < reinvest_chains_of_prefs(ps, amount, min_amount_out, pool_id).len() ==> (
            #[trigger] reinvest_chains_of_prefs(ps, amount, min_amount_out, pool_id)[k])
                .attached_amount == amount,
    decreases ps.len(),
{
    if ps.len() > 0 {
        lemma_reinvest_prefs_attached_amount(ps.drop_last(), amount, min_amount_out, pool_id);
    }
}

/// Every reinvest chain carries the whole investable amount, not a split
/// share: the attached value of each issued chain equals `amount`.
pub proof fn lemma_reinvest_attached_amount(
    us: Seq<UserView>,
    amount: u128,
    min_amount_out: Seq<char>,
    pool_id: Seq<char>,
)
    ensures
        forall|k: int|
            0 <= k < reinvest_chains_of_users(us, amount, min_amount_out, pool_id).len() ==> (
            #[trigger] reinvest_chains_of_users(us, amount, min_amount_out, pool_id)[k])
                .attached_amount == amount,
    decreases us.len(),
{
    if us.len() > 0 {
        lemma_reinvest_attached_amount(us.drop_last(), amount, min_amount_out, pool_id);
        lemma_reinvest_prefs_attached_amount(us.last().preferences, amount, min_amount_out, pool_id);
    }
}

proof fn lemma_harvest_prefs_provenance(ps: Seq<PreferenceView>)
    ensures
        forall|k: int|
            0 <= k < harvest_chains_of_prefs(ps).len() ==> {
                let c = #[trigger] harvest_chains_of_prefs(ps)[k];
                exists|j: int|
                    0 <= j < ps.len() && record_qualifies(#[trigger] ps[j]) && (c
                        == claim_rewards_chain(ps[j]) || c == claim_burrow_chain(ps[j]))
            },
    decreases ps.len(),
{
    if ps.len() > 0 {
        lemma_harvest_prefs_provenance(ps.drop_last());
        let cs = harvest_chains_of_prefs(ps);
        let prefix = harvest_chains_of_prefs(ps.drop_last());
        assert forall|k: int| 0 <= k < cs.len() implies ({
            let c = #[trigger] cs[k];
            exists|j: int|
                0 <= j < ps.len() && record_qualifies(#[trigger] ps[j]) && (c
                    == claim_rewards_chain(ps[j]) || c == claim_burrow_chain(ps[j]))
        }) by {
            if k < prefix.len() {
                let j = choose|j: int|
                    0 <= j < ps.drop_last().len() && record_qualifies(
                        #[trigger] ps.drop_last()[j],
                    ) && (prefix[k] == claim_rewards_chain(ps.drop_last()[j]) || prefix[k]
                        == claim_burrow_chain(ps.drop_last()[j]));
                assert(ps.drop_last()[j] == ps[j]);
                assert(cs[k] == prefix[k]);
                assert(record_qualifies(ps[j]) && (cs[k] == claim_rewards_chain(ps[j]) || cs[k]
                    == claim_burrow_chain(ps[j])));
            } else {
                let j = ps.len() - 1;
                assert(record_qualifies(ps[j]) && (cs[k] == claim_rewards_chain(ps[j]) || cs[k]
                    == claim_burrow_chain(ps[j])));
            }
        }
    }
}

/// No chain from an inactive record: every harvest chain is one of the two
/// chains of some qualifying (active, resolvable) record of some
/// participant.
pub proof fn lemma_harvest_chains_from_active(us: Seq<UserView>)
    ensures
        forall|k: int|
            0 <= k < harvest_chains_of_users(us).len() ==> {
                let c = #[trigger] harvest_chains_of_users(us)[k];
                exists|i: int, j: int|
                    0 <= i < us.len() && 0 <= j < us[i].preferences.len()
                        && record_qualifies(#[trigger] us[i].preferences[j]) && (c == claim_rewards_chain(
                        us[i].preferences[j],
                    ) || c == claim_burrow_chain(us[i].preferences[j]))
            },
    decreases us.len(),
{
    if us.len() > 0 {
        lemma_harvest_chains_from_active(us.drop_last());
        lemma_harvest_prefs_provenance(us.last().preferences);
        let cs = harvest_chains_of_users(us);
        let prefix = harvest_chains_of_users(us.drop_last());
        let tail = harvest_chains_of_prefs(us.last().preferences);
        assert forall|k: int| 0 <= k < cs.len() implies ({
            let c = #[trigger] cs[k];
            exists|i: int, j: int|
                0 <= i < us.len() && 0 <= j < us[i].preferences.len()
                    && record_qualifies(#[trigger] us[i].preferences[j]) && (c == claim_rewards_chain(
                    us[i].preferences[j],
                ) || c == claim_burrow_chain(us[i].preferences[j]))
        }) by {
            if k < prefix.len() {
                let (i, j) = choose|i: int, j: int|
                    0 <= i < us.drop_last().len() && 0 <= j < us.drop_last()[i].preferences.len()
                        && record_qualifies(#[trigger] us.drop_last()[i].preferences[j])
                        && (prefix[k] == claim_rewards_chain(us.drop_last()[i].preferences[j])
                        || prefix[k] == claim_burrow_chain(us.drop_last()[i].preferences[j]));
                assert(us.drop_last()[i] == us[i]);
                assert(cs[k] == prefix[k]);
                assert(0 <= i < us.len() && 0 <= j < us[i].preferences.len() && record_qualifies(
                    us[i].preferences[j],
                ) && (cs[k] == claim_rewards_chain(us[i].preferences[j]) || cs[k]
                    == claim_burrow_chain(us[i].preferences[j])));
            } else {
                let i = us.len() - 1;
                let ps = us[i].preferences;
                assert(us.last() == us[i]);
                assert(cs[k] == tail[k - prefix.len()]);
                let j = choose|j: int|
                    0 <= j < ps.len() && record_qualifies(#[trigger] ps[j]) && (tail[k
                        - prefix.len()] == claim_rewards_chain(ps[j]) || tail[k - prefix.len()]
                        == claim_burrow_chain(ps[j]));
                assert(0 <= i < us.len() && 0 <= j < us[i].preferences.len() && record_qualifies(
                    us[i].preferences[j],
                ) && (cs[k] == claim_rewards_chain(us[i].preferences[j]) || cs[k]
                    == claim_burrow_chain(us[i].preferences[j])));
            }
        }
    }
}

proof fn lemma_reinvest_prefs_provenance(
    ps: Seq<PreferenceView>,
    amount: u128,
    min_amount_out: Seq<char>,
    pool_id: Seq<char>,
)
    ensures
        forall|k: int|
            0 <= k < reinvest_chains_of_prefs(ps, amount, min_amount_out, pool_id).len() ==> {
                let c = #[trigger] reinvest_chains_of_prefs(ps, amount, min_amount_out, pool_id)[k];
                exists|j: int|
                    0 <= j < ps.len() && record_qualifies(#[trigger] ps[j]) && c == reinvest_chain(
                        ps[j],
                        amount,
                        min_amount_out,
                        pool_id,
                    )
            },
    decreases ps.len(),
{
    if ps.len() > 0 {
        lemma_reinvest_prefs_provenance(ps.drop_last(), amount, min_amount_out, pool_id);
        let cs = reinvest_chains_of_prefs(ps, amount, min_amount_out, pool_id);
        let prefix = reinvest_chains_of_prefs(ps.drop_last(), amount, min_amount_out, pool_id);
        assert forall|k: int| 0 <= k < cs.len() implies ({
            let c = #[trigger] cs[k];
            exists|j: int|
                0 <= j < ps.len() && record_qualifies(#[trigger] ps[j]) && c == reinvest_chain(
                    ps[j],
                    amount,
                    min_amount_out,
                    pool_id,
                )
        }) by {
            if k < prefix.len() {
                let j = choose|j: int|
                    0 <= j < ps.drop_last().len() && record_qualifies(
                        #[trigger] ps.drop_last()[j],
                    ) && prefix[k] == reinvest_chain(
                        ps.drop_last()[j],
                        amount,
                        min_amount_out,
                        pool_id,
                    );
                assert(ps.drop_last()[j] == ps[j]);
                assert(cs[k] == prefix[k]);
                assert(record_qualifies(ps[j]) && cs[k] == reinvest_chain(
                    ps[j],
                    amount,
                    min_amount_out,
                    pool_id,
                ));
            } else {
                let j = ps.len() - 1;
                assert(record_qualifies(ps[j]) && cs[k] == reinvest_chain(
                    ps[j],
                    amount,
                    min_amount_out,
                    pool_id,
                ));
            }
        }
    }
}

/// No chain from an inactive record: every reinvest chain is the chain of
/// some qualifying (active, resolvable) record of some participant.
pub proof fn lemma_reinvest_chains_from_active(
    us: Seq<UserView>,
    amount: u128,
    min_amount_out: Seq<char>,
    pool_id: Seq<char>,
)
    ensures
        forall|k: int|
            0 <= k < reinvest_chains_of_users(us, amount, min_amount_out, pool_id).len() ==> {
                let c = #[trigger] reinvest_chains_of_users(us, amount, min_amount_out, pool_id)[k];
                exists|i: int, j: int|
                    0 <= i < us.len() && 0 <= j < us[i].preferences.len()
                        && record_qualifies(#[trigger] us[i].preferences[j]) && c == reinvest_chain(
                        us[i].preferences[j],
                        amount,
                        min_amount_out,
                        pool_id,
                    )
            },
    decreases us.len(),
{
    if us.len() > 0 {
        lemma_reinvest_chains_from_active(us.drop_last(), amount, min_amount_out, pool_id);
        lemma_reinvest_prefs_provenance(us.last().preferences, amount, min_amount_out, pool_id);
        let cs = reinvest_chains_of_users(us, amount, min_amount_out, pool_id);
        let prefix = reinvest_chains_of_users(us.drop_last(), amount, min_amount_out, pool_id);
        let tail = reinvest_chains_of_prefs(us.last().preferences, amount, min_amount_out, pool_id);
        assert forall|k: int| 0 <= k < cs.len() implies ({
            let c = #[trigger] cs[k];
            exists|i: int, j: int|
                0 <= i < us.len() && 0 <= j < us[i].preferences.len()
                    && record_qualifies(#[trigger] us[i].preferences[j]) && c == reinvest_chain(
                    us[i].preferences[j],
                    amount,
                    min_amount_out,
                    pool_id,
                )
        }) by {
            if k < prefix.len() {
                let (i, j) = choose|i: int, j: int|
                    0 <= i < us.drop_last().len() && 0 <= j < us.drop_last()[i].preferences.len()
                        && record_qualifies(#[trigger] us.drop_last()[i].preferences[j])
                        && prefix[k] == reinvest_chain(
                        us.drop_last()[i].preferences[j],
                        amount,
                        min_amount_out,
                        pool_id,
                    );
                assert(us.drop_last()[i] == us[i]);
                assert(cs[k] == prefix[k]);
                assert(0 <= i < us.len() && 0 <= j < us[i].preferences.len() && record_qualifies(
                    us[i].preferences[j],
                ) && cs[k] == reinvest_chain(us[i].preferences[j], amount, min_amount_out, pool_id));
            } else {
                let i = us.len() - 1;
                let ps = us[i].preferences;
                assert(us.last() == us[i]);
                assert(cs[k] == tail[k - prefix.len()]);
                let j = choose|j: int|
                    0 <= j < ps.len() && record_qualifies(#[trigger] ps[j]) && tail[k
                        - prefix.len()] == reinvest_chain(ps[j], amount, min_amount_out, pool_id);
                assert(0 <= i < us.len() && 0 <= j < us[i].preferences.len() && record_qualifies(
                    us[i].preferences[j],
                ) && cs[k] == reinvest_chain(us[i].preferences[j], amount, min_amount_out, pool_id));
            }
        }
    }
}

} // verus!
