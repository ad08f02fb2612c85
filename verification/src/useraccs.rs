//! The orchestrator contract.
//!
//! A registry of participant accounts, each carrying an ordered list of
//! strategy records, one scalar last-trigger timestamp, and the two trigger
//! entry points: [`Contract::compound`] (harvest) and [`Contract::reinvest`].
//! Both entry points are pure decision logic from plain values — the caller,
//! the clock, and the sampled balances are passed in, and the issued chains
//! come back as data — so the whole trigger path is verified here, while the
//! host merely samples its environment and performs the issued calls.

use vstd::prelude::*;

use crate::chains::{
    build_harvest_chains, build_reinvest_chains, chains_view, harvest_chains_of_users,
    notes_view, reinvest_chains_of_users, skipped_notes_of_users, CallChain, ChainOutcome,
};
use crate::guard::{authorized, AccessGuard, AuthDecision};
use crate::settlement::{
    settle_balance_delta, spec_settlement, transfer_opt_view, IncentiveTransfer,
    INCENTIVE_SHARE_PERCENT,
};
use crate::text::str_eq;
use crate::RegistryError;

verus! {

/// The cooldown between two harvest triggers: one hour, in nanoseconds.
pub const COOLDOWN_NANOSECONDS: u64 = 3_600_000_000_000;

/// The reserve floor kept out of reinvestment: 2 native units, in the
/// smallest currency unit.
pub const RESERVE_FLOOR_YOCTO: u128 = 2_000_000_000_000_000_000_000_000;

/// Where a record's share of the investable balance goes. The set is closed
/// so that the reinvest fan-out branches exhaustively; extending the
/// orchestrator to a new venue means a new variant here and a new arm there.
#[derive(Clone, Copy, PartialEq, Eq, Structural, Debug)]
pub enum ReinvestTarget {
    /// Deposit into the external lending market.
    Burrow,
    /// Stake via swap on the external staking pool.
    Stake,
}

/// One strategy record of a participant.
pub struct Preference {
    pub seed_id: String,
    pub token_id: String,
    pub smart_contract_name: String,
    pub is_active: bool,
    pub reinvest_to: ReinvestTarget,
}

/// The mathematical value of a [`Preference`].
pub ghost struct PreferenceView {
    pub seed_id: Seq<char>,
    pub token_id: Seq<char>,
    pub smart_contract_name: Seq<char>,
    pub is_active: bool,
    pub reinvest_to: ReinvestTarget,
}

impl View for Preference {
    type V = PreferenceView;

    open spec fn view(&self) -> PreferenceView {
        PreferenceView {
            seed_id: self.seed_id@,
            token_id: self.token_id@,
            smart_contract_name: self.smart_contract_name@,
            is_active: self.is_active,
            reinvest_to: self.reinvest_to,
        }
    }
}

/// The record list as a sequence of mathematical values.
pub open spec fn prefs_seq_view(ps: Seq<Preference>) -> Seq<PreferenceView> {
    ps.map_values(|p: Preference| p@)
}

/// A registered participant.
pub struct User {
    pub username: String,
    pub wallet_id: String,
    pub subaccount_id: String,
    pub preferences: Vec<Preference>,
}

/// The mathematical value of a [`User`].
pub ghost struct UserView {
    pub username: Seq<char>,
    pub wallet_id: Seq<char>,
    pub subaccount_id: Seq<char>,
    pub preferences: Seq<PreferenceView>,
}

impl View for User {
    type V = UserView;

    open spec fn view(&self) -> UserView {
        UserView {
            username: self.username@,
            wallet_id: self.wallet_id@,
            subaccount_id: self.subaccount_id@,
            preferences: prefs_seq_view(self.preferences@),
        }
    }
}

/// The participant list as a sequence of mathematical values.
pub open spec fn users_seq_view(us: Seq<User>) -> Seq<UserView> {
    us.map_values(|u: User| u@)
}

/// Whether a participant with the given wallet identity is registered.
pub open spec fn has_user(users: Seq<UserView>, wallet_id: Seq<char>) -> bool {
    exists|i: int| 0 <= i < users.len() && users[i].wallet_id == wallet_id
}

/// Every record in the list obeys the seed-length bound.
pub open spec fn records_seed_ok(ps: Seq<PreferenceView>) -> bool {
    forall|k: int| 0 <= k < ps.len() ==> (#[trigger] ps[k]).seed_id.len() <= 64
}

/// Why a trigger was rejected. Both rejections are synchronous and leave all
/// state exactly as it was.
#[derive(Clone, Copy, PartialEq, Eq, Structural, Debug)]
pub enum TriggerError {
    /// The caller fails the access guard's rule.
    Unauthorized,
    /// The previous harvest trigger is still inside the cooldown window;
    /// retry after it elapses.
    CooldownActive,
}

/// Whether a trigger at `now` is outside the cooldown window that started at
/// `last`.
pub open spec fn trigger_allowed(last: u64, now: u64) -> bool {
    now >= last + COOLDOWN_NANOSECONDS
}

/// What one harvest trigger issued: the fan-out chains, the diagnostic notes
/// of the skipped records, and the caller's incentive transfer, if owed.
pub struct CompoundOutcome {
    pub chains: Vec<CallChain>,
    pub skipped: Vec<String>,
    pub incentive: Option<IncentiveTransfer>,
}

/// What one reinvest trigger issued.
pub struct ReinvestOutcome {
    pub chains: Vec<CallChain>,
    pub skipped: Vec<String>,
}

/// The orchestrator's persisted state: the registry, keyed by wallet
/// identity, and the last-trigger timestamp.
pub struct Contract {
    users: Vec<User>,
    last_compound_call: u64,
}

fn find_account_index(users: &Vec<User>, wallet_id: &str) -> (r: Option<usize>)
    ensures
        match r {
            Some(i) => 0 <= i < users@.len() && users@[i as int].wallet_id@ == wallet_id@,
            None => forall|i: int| 0 <= i < users@.len() ==> users@[i].wallet_id@ != wallet_id@,
        },
{
    let mut i: usize = 0;
    while i < users.len()
        invariant
            0 <= i <= users@.len(),
            forall|j: int| 0 <= j < i ==> users@[j].wallet_id@ != wallet_id@,
        decreases users@.len() - i,
    {
        if str_eq(users[i].wallet_id.as_str(), wallet_id) {
            return Some(i);
        }
        i += 1;
    }
    None
}

fn clone_record(p: &Preference) -> (r: Preference)
    ensures
        r@ == p@,
{
    Preference {
        seed_id: p.seed_id.clone(),
        token_id: p.token_id.clone(),
        smart_contract_name: p.smart_contract_name.clone(),
        is_active: p.is_active,
        reinvest_to: p.reinvest_to,
    }
}

fn clone_records(ps: &Vec<Preference>) -> (r: Vec<Preference>)
    ensures
        prefs_seq_view(r@) == prefs_seq_view(ps@),
{
    let mut out: Vec<Preference> = Vec::new();
    let mut i: usize = 0;
    while i < ps.len()
        invariant
            0 <= i <= ps@.len(),
            out@.len() == i,
            forall|j: int| 0 <= j < i ==> (#[trigger] out@[j])@ == ps@[j]@,
        decreases ps@.len() - i,
    {
        out.push(clone_record(&ps[i]));
        i += 1;
    }
    proof {
        assert(prefs_seq_view(out@) =~= prefs_seq_view(ps@));
    }
    out
}

fn clone_account(u: &User) -> (r: User)
    ensures
        r@ == u@,
{
    User {
        username: u.username.clone(),
        wallet_id: u.wallet_id.clone(),
        subaccount_id: u.subaccount_id.clone(),
        preferences: clone_records(&u.preferences),
    }
}

impl Contract {
    /// The registry as a sequence of participant values, in insertion order.
    pub closed spec fn users_view(&self) -> Seq<UserView> {
        users_seq_view(self.users@)
    }

    /// The last-trigger timestamp.
    pub closed spec fn last_trigger(&self) -> u64 {
        self.last_compound_call
    }

    /// The invariant: wallet identities are unique, and every stored record
    /// obeys the seed-length bound.
    pub open spec fn wf(&self) -> bool {
        &&& forall|i: int, j: int|
            0 <= i < j < self.users_view().len() ==> self.users_view()[i].wallet_id
                != self.users_view()[j].wallet_id
        &&& forall|i: int|
            0 <= i < self.users_view().len() ==> records_seed_ok(
                (#[trigger] self.users_view()[i]).preferences,
            )
    }

    /// Register or re-register the calling principal. Re-registration
    /// replaces the participant whole, with an empty record list.
    pub fn store_user(&mut self, caller: String, username: String, subaccount_id: String)
        requires
            old(self).wf(),
        ensures
            final(self).wf(),
            final(self).last_trigger() == old(self).last_trigger(),
            !has_user(old(self).users_view(), caller@) ==> final(self).users_view() =~= old(self).users_view().push(
                UserView {
                    username: username@,
                    wallet_id: caller@,
                    subaccount_id: subaccount_id@,
                    preferences: Seq::empty(),
                },
            ),
            has_user(old(self).users_view(), caller@) ==> exists|i: int|
                0 <= i < old(self).users_view().len() && old(self).users_view()[i].wallet_id
                    == caller@ && final(self).users_view() =~= old(self).users_view().update(
                    i,
                    UserView {
                        username: username@,
                        wallet_id: caller@,
                        subaccount_id: subaccount_id@,
                        preferences: Seq::empty(),
                    },
                ),
    {
        let found = find_account_index(&self.users, caller.as_str());
        let new_user = User {
            username,
            wallet_id: caller,
            subaccount_id,
            preferences: Vec::new(),
        };
        let ghost new_view = new_user@;
        match found {
            Some(i) => {
                proof {
                    assert(self.users_view()[i as int] == self.users@[i as int]@);
                }
                self.users[i] = new_user;
                proof {
                    assert(new_view.preferences =~= Seq::<PreferenceView>::empty());
                    assert(has_user(old(self).users_view(), new_view.wallet_id));
                    assert(self.users_view() =~= old(self).users_view().update(
                        i as int,
                        new_view,
                    ));
                }
            },
            None => {
                proof {
                    assert(forall|i: int|
                        0 <= i < old(self).users@.len() ==> (#[trigger] old(self).users_view()[i]) == old(self).users@[i]@);
                    assert(!has_user(old(self).users_view(), new_view.wallet_id));
                }
                self.users.push(new_user);
                proof {
                    assert(new_view.preferences =~= Seq::<PreferenceView>::empty());
                    assert(self.users_view() =~= old(self).users_view().push(new_view));
                }
            },
        }
    }

    /// Read a participant by wallet identity.
    pub fn get_user(&self, wallet_id: String) -> (r: Option<User>)
        ensures
            match r {
                Some(u) => exists|i: int|
                    0 <= i < self.users_view().len() && self.users_view()[i].wallet_id
                        == wallet_id@ && u@ == self.users_view()[i],
                None => !has_user(self.users_view(), wallet_id@),
            },
    {
        match find_account_index(&self.users, wallet_id.as_str()) {
            Some(i) => {
                let found = clone_account(&self.users[i]);
                proof {
                    assert(self.users_view()[i as int] == self.users@[i as int]@);
                    assert(found@ == self.users_view()[i as int]);
                }
                Some(found)
            },
            None => {
                proof {
                    assert(forall|i: int|
                        0 <= i < self.users@.len() ==> (#[trigger] self.users_view()[i])
                            == self.users@[i]@);
                }
                None
            },
        }
    }

    /// Append strategy records to the calling principal's list. The mutation
    /// boundary rejects the whole batch when any seed identifier exceeds 64
    /// characters; nothing is stored in that case.
    pub fn update_preferences(&mut self, caller: String, prefs: Vec<Preference>) -> (r: Result<
        (),
        RegistryError,
    >)
        requires
            old(self).wf(),
        ensures
            final(self).wf(),
            final(self).last_trigger() == old(self).last_trigger(),
            !has_user(old(self).users_view(), caller@) ==> r == Err::<(), RegistryError>(
                RegistryError::UserNotFound,
            ) && final(self).users_view() == old(self).users_view(),
            has_user(old(self).users_view(), caller@) && !records_seed_ok(prefs_seq_view(prefs@))
                ==> r == Err::<(), RegistryError>(RegistryError::SeedTooLong) && final(self).users_view() == old(self).users_view(),
            has_user(old(self).users_view(), caller@) && records_seed_ok(prefs_seq_view(prefs@))
                ==> r == Ok::<(), RegistryError>(()) && exists|i: int|
                0 <= i < old(self).users_view().len() && old(self).users_view()[i].wallet_id
                    == caller@ && final(self).users_view() =~= old(self).users_view().update(
                    i,
                    UserView {
                        preferences: old(self).users_view()[i].preferences + prefs_seq_view(
                            prefs@,
                        ),
                        ..old(self).users_view()[i]
                    },
                ),
    {
        let ghost incoming = prefs_seq_view(prefs@);
        let idx = match find_account_index(&self.users, caller.as_str()) {
            Some(i) => i,
            None => {
                proof {
                    assert(forall|i: int|
                        0 <= i < self.users@.len() ==> (#[trigger] self.users_view()[i])
                            == self.users@[i]@);
                }
                return Err(RegistryError::UserNotFound);
            },
        };
        proof {
            assert(self.users_view()[idx as int] == self.users@[idx as int]@);
            assert(has_user(self.users_view(), caller@));
        }
        let mut k: usize = 0;
        while k < prefs.len()
            invariant
                0 <= k <= prefs@.len(),
                incoming == prefs_seq_view(prefs@),
                incoming.len() == prefs@.len(),
                forall|j: int| 0 <= j < k ==> (#[trigger] incoming[j]).seed_id.len() <= 64,
                *self == *old(self),
                old(self).wf(),
                has_user(old(self).users_view(), caller@),
            decreases prefs@.len() - k,
        {
            proof {
                assert(incoming[k as int] == prefs@[k as int]@);
            }
            if prefs[k].seed_id.as_str().unicode_len() > 64 {
                return Err(RegistryError::SeedTooLong);
            }
            k += 1;
        }
        assert(records_seed_ok(incoming));
        let mut additions = prefs;
        let mut new_prefs = clone_records(&self.users[idx].preferences);
        let ghost base = prefs_seq_view(new_prefs@);
        new_prefs.append(&mut additions);
        proof {
            assert(prefs_seq_view(new_prefs@) =~= base + incoming);
        }
        let updated = User {
            username: self.users[idx].username.clone(),
            wallet_id: self.users[idx].wallet_id.clone(),
            subaccount_id: self.users[idx].subaccount_id.clone(),
            preferences: new_prefs,
        };
        let ghost updated_view = updated@;
        self.users[idx] = updated;
        proof {
            assert(updated_view.preferences =~= old(self).users_view()[idx as int].preferences
                + incoming);
            assert(updated_view == UserView {
                preferences: old(self).users_view()[idx as int].preferences + incoming,
                ..old(self).users_view()[idx as int]
            });
            assert(self.users_view() =~= old(self).users_view().update(
                idx as int,
                updated_view,
            ));
        }
        Ok(())
    }

    /// Read the whole registry, in insertion order.
    pub fn get_all_users(&self) -> (r: Vec<User>)
        ensures
            users_seq_view(r@) == self.users_view(),
    {
        let mut out: Vec<User> = Vec::new();
        let mut i: usize = 0;
        while i < self.users.len()
            invariant
                0 <= i <= self.users@.len(),
                out@.len() == i,
                forall|j: int| 0 <= j < i ==> (#[trigger] out@[j])@ == self.users@[j]@,
            decreases self.users@.len() - i,
        {
            out.push(clone_account(&self.users[i]));
            i += 1;
        }
        proof {
            assert(users_seq_view(out@) =~= self.users_view());
        }
        out
    }

    /// Restore the last-trigger timestamp. The host persists the timestamp
    /// across invocations and hands it back when it rebuilds the state.
    pub fn restore_last_trigger(&mut self, t: u64)
        ensures
            final(self).wf() == old(self).wf(),
            final(self).users_view() == old(self).users_view(),
            final(self).last_trigger() == t,
    {
        self.last_compound_call = t;
        proof {
            assert(self.users_view() == old(self).users_view());
            assert(self.wf() == old(self).wf());
        }
    }

    /// The rate limiter: allow a trigger at `now` only when the cooldown
    /// window that started at the last trigger has elapsed, and then move the
    /// window forward to `now` before anything else happens.
    pub fn try_trigger(&mut self, now: u64) -> (r: Result<(), TriggerError>)
        ensures
            final(self).users_view() == old(self).users_view(),
            trigger_allowed(old(self).last_trigger(), now) ==> r == Ok::<(), TriggerError>(())
                && final(self).last_trigger() == now,
            !trigger_allowed(old(self).last_trigger(), now) ==> r == Err::<(), TriggerError>(
                TriggerError::CooldownActive,
            ) && final(self).last_trigger() == old(self).last_trigger(),
    {
        if now >= self.last_compound_call && now - self.last_compound_call
            >= COOLDOWN_NANOSECONDS {
            self.last_compound_call = now;
            Ok(())
        } else {
            Err(TriggerError::CooldownActive)
        }
    }

    /// The harvest trigger. Guard, then rate limiter (the window moves
    /// forward before any chain is issued), then fan-out: two chains per
    /// qualifying record, and the caller's incentive settled from the
    /// balance delta the host sampled around issuance.
    ///
    /// The two balance parameters are the host's samples immediately before
    /// fan-out and immediately after call issuance; issued chains complete
    /// later, so the delta reflects only synchronous effects of issuance.
    pub fn compound(
        &mut self,
        guard: &AccessGuard,
        self_identity: &str,
        caller: &str,
        now: u64,
        pre_claim_balance: u128,
        post_claim_balance: u128,
    ) -> (r: Result<CompoundOutcome, TriggerError>)
        requires
            old(self).wf(),
            pre_claim_balance <= post_claim_balance,
            post_claim_balance - pre_claim_balance <= u128::MAX / INCENTIVE_SHARE_PERCENT,
        ensures
            final(self).wf(),
            final(self).users_view() == old(self).users_view(),
            !authorized(guard@, caller@, self_identity@) ==> (r matches Err(e) && e
                == TriggerError::Unauthorized) && final(self).last_trigger() == old(self).last_trigger(),
            authorized(guard@, caller@, self_identity@) && !trigger_allowed(
                old(self).last_trigger(),
                now,
            ) ==> (r matches Err(e) && e == TriggerError::CooldownActive) && final(self).last_trigger() == old(self).last_trigger(),
            authorized(guard@, caller@, self_identity@) && trigger_allowed(
                old(self).last_trigger(),
                now,
            ) ==> (r matches Ok(out) && final(self).last_trigger() == now && chains_view(
                out.chains@,
            ) == harvest_chains_of_users(old(self).users_view()) && notes_view(out.skipped@)
                == skipped_notes_of_users(old(self).users_view()) && transfer_opt_view(
                out.incentive,
            ) == spec_settlement(pre_claim_balance, post_claim_balance, caller@)),
    {
        match guard.authorize(caller, self_identity) {
            AuthDecision::Denied => {
                return Err(TriggerError::Unauthorized);
            },
            AuthDecision::Allowed => {},
        }
        match self.try_trigger(now) {
            Err(e) => {
                return Err(e);
            },
            Ok(()) => {},
        }
        let (chains, skipped) = build_harvest_chains(&self.users);
        let incentive = settle_balance_delta(pre_claim_balance, post_claim_balance, caller);
        Ok(CompoundOutcome { chains, skipped, incentive })
    }

    /// The self-addressed reconciliation callback of a harvest chain: log the
    /// first upstream result slot and acknowledge. Never raises; a missing
    /// result slot is itself logged as a distinct condition. Restricted to
    /// the contract itself.
    pub fn handle_claim_result(
        &self,
        caller: &str,
        self_identity: &str,
        contract_name: String,
        action: String,
        result: Option<ChainOutcome>,
    ) -> (r: Result<String, TriggerError>)
        ensures
            caller@ != self_identity@ ==> (r matches Err(e) && e == TriggerError::Unauthorized),
            caller@ == self_identity@ ==> (r matches Ok(line) && line@ == outcome_log_line(
                contract_name@,
                action@,
                result,
                ": Account may not be registered"@,
            )),
    {
        if !str_eq(caller, self_identity) {
            return Err(TriggerError::Unauthorized);
        }
        Ok(outcome_log_text(contract_name, action, result, ": Account may not be registered"))
    }

    /// The reinvest trigger. Guard, then fan-out: when the balance exceeds
    /// the reserve floor, one chain per qualifying record, every chain
    /// carrying the whole investable amount (balance minus floor, computed
    /// once, not split per record); at or below the floor, an empty outcome,
    /// whatever the registry holds.
    pub fn reinvest(
        &mut self,
        guard: &AccessGuard,
        self_identity: &str,
        caller: &str,
        balance: u128,
        minamountout: String,
        minamountout2: String,
    ) -> (r: Result<ReinvestOutcome, TriggerError>)
        requires
            old(self).wf(),
        ensures
            final(self).wf(),
            final(self).users_view() == old(self).users_view(),
            final(self).last_trigger() == old(self).last_trigger(),
            !authorized(guard@, caller@, self_identity@) ==> (r matches Err(e) && e
                == TriggerError::Unauthorized),
            authorized(guard@, caller@, self_identity@) && balance <= RESERVE_FLOOR_YOCTO ==> (
            r matches Ok(out) && out.chains@.len() == 0 && out.skipped@.len() == 0),
            authorized(guard@, caller@, self_identity@) && balance > RESERVE_FLOOR_YOCTO ==> (
            r matches Ok(out) && chains_view(out.chains@) == reinvest_chains_of_users(
                old(self).users_view(),
                (balance - RESERVE_FLOOR_YOCTO) as u128,
                minamountout@,
                minamountout2@,
            ) && notes_view(out.skipped@) == skipped_notes_of_users(old(self).users_view())),
    {
        match guard.authorize(caller, self_identity) {
            AuthDecision::Denied => {
                return Err(TriggerError::Unauthorized);
            },
            AuthDecision::Allowed => {},
        }
        if balance <= RESERVE_FLOOR_YOCTO {
            return Ok(ReinvestOutcome { chains: Vec::new(), skipped: Vec::new() });
        }
        let stake_bal = balance - RESERVE_FLOOR_YOCTO;
        let (chains, skipped) = build_reinvest_chains(
            &self.users,
            stake_bal,
            minamountout.as_str(),
            minamountout2.as_str(),
        );
        Ok(ReinvestOutcome { chains, skipped })
    }

    /// The self-addressed reconciliation callback of a reinvest chain: as
    /// [`Contract::handle_claim_result`], with the reinvest failure hint.
    pub fn handle_reinvest_result(
        &self,
        caller: &str,
        self_identity: &str,
        contract_name: String,
        action: String,
        result: Option<ChainOutcome>,
    ) -> (r: Result<String, TriggerError>)
        ensures
            caller@ != self_identity@ ==> (r matches Err(e) && e == TriggerError::Unauthorized),
            caller@ == self_identity@ ==> (r matches Ok(line) && line@ == outcome_log_line(
                contract_name@,
                action@,
                result,
                ": Check account registration or balance"@,
            )),
    {
        if !str_eq(caller, self_identity) {
            return Err(TriggerError::Unauthorized);
        }
        Ok(
            outcome_log_text(
                contract_name,
                action,
                result,
                ": Check account registration or balance",
            ),
        )
    }
}

impl Default for Contract {
    /// An empty registry, with the cooldown window starting at time zero.
    fn default() -> (c: Self)
        ensures
            c.users_view() =~= Seq::<UserView>::empty(),
            c.last_trigger() == 0,
            c.wf(),
    {
        Contract { users: Vec::new(), last_compound_call: 0 }
    }
}

/// The cooldown window: once a trigger lands at `t0`, any further trigger —
/// whoever calls — is denied while the window is open, and allowed again
/// once it has elapsed.
pub proof fn lemma_cooldown_window(t0: u64, t1: u64, t2: u64)
    requires
        t1 < t0 + COOLDOWN_NANOSECONDS,
        t2 >= t0 + COOLDOWN_NANOSECONDS,
    ensures
        !trigger_allowed(t0, t1),
        trigger_allowed(t0, t2),
{
}

/// The log line of one reconciled chain result: success and failure are
/// tagged with the (action, service) pair, failure with a workflow-specific
/// hint, and a missing result slot is a distinct condition of its own.
pub open spec fn outcome_log_line(
    contract_name: Seq<char>,
    action: Seq<char>,
    result: Option<ChainOutcome>,
    failure_hint: Seq<char>,
) -> Seq<char> {
    match result {
        Some(ChainOutcome::Success) => action + " succeeded for "@ + contract_name,
        Some(ChainOutcome::Failed) => "Failed to execute "@ + action + " on "@ + contract_name
            + failure_hint,
        None => "No promise result available"@,
    }
}

fn outcome_log_text(
    contract_name: String,
    action: String,
    result: Option<ChainOutcome>,
    failure_hint: &str,
) -> (line: String)
    ensures
        line@ == outcome_log_line(contract_name@, action@, result, failure_hint@),
{
    match result {
        Some(ChainOutcome::Success) => action.concat(" succeeded for ").concat(
            contract_name.as_str(),
        ),
        Some(ChainOutcome::Failed) => String::from_str("Failed to execute ").concat(
            action.as_str(),
        ).concat(" on ").concat(contract_name.as_str()).concat(failure_hint),
        None => String::from_str("No promise result available"),
    }
}

} // verus!
