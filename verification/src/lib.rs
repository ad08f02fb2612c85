//! A yield-management orchestrator: a registry of participant accounts, each
//! carrying a reinvestment strategy, and the trigger logic that fans harvest
//! and reinvest call chains out over the registered strategy records.
//!
//! The crate root holds the participant registry in its current shape: one
//! optional strategy preference per participant, mutated only by the owning
//! principal and validated at the mutation boundary. The [`useraccs`] module
//! holds the orchestrator itself, over the registry shape it was written
//! against (a list of strategy records per participant).

pub mod account;
pub mod chains;
pub mod decimal;
pub mod guard;
pub mod settlement;
pub mod text;
pub mod useraccs;

use vstd::prelude::*;

use crate::text::str_eq;

verus! {

/// Where a participant's current holdings sit. One variant today; the set is
/// closed so that the fan-out can branch exhaustively.
pub enum InvestOption {
    Burrow { seed_id: String, token_id: String },
}

/// The mathematical value of an [`InvestOption`].
pub ghost enum InvestOptionView {
    Burrow { seed_id: Seq<char>, token_id: Seq<char> },
}

impl View for InvestOption {
    type V = InvestOptionView;

    open spec fn view(&self) -> InvestOptionView {
        match self {
            InvestOption::Burrow { seed_id, token_id } => InvestOptionView::Burrow {
                seed_id: seed_id@,
                token_id: token_id@,
            },
        }
    }
}

/// Where harvested rewards are to be reinvested.
pub enum ReinvestOption {
    Burrow { seed_id: String, token_id: String },
}

/// The mathematical value of a [`ReinvestOption`].
pub ghost enum ReinvestOptionView {
    Burrow { seed_id: Seq<char>, token_id: Seq<char> },
}

impl View for ReinvestOption {
    type V = ReinvestOptionView;

    open spec fn view(&self) -> ReinvestOptionView {
        match self {
            ReinvestOption::Burrow { seed_id, token_id } => ReinvestOptionView::Burrow {
                seed_id: seed_id@,
                token_id: token_id@,
            },
        }
    }
}

/// A participant's strategy preference.
pub struct Preference {
    pub smart_contract_name: String,
    pub is_active: bool,
    pub invested_in: InvestOption,
    pub reinvest_to: ReinvestOption,
}

/// The mathematical value of a [`Preference`].
pub ghost struct PreferenceView {
    pub smart_contract_name: Seq<char>,
    pub is_active: bool,
    pub invested_in: InvestOptionView,
    pub reinvest_to: ReinvestOptionView,
}

impl View for Preference {
    type V = PreferenceView;

    open spec fn view(&self) -> PreferenceView {
        PreferenceView {
            smart_contract_name: self.smart_contract_name@,
            is_active: self.is_active,
            invested_in: self.invested_in@,
            reinvest_to: self.reinvest_to@,
        }
    }
}

/// A registered participant: identity, delegated operating identity, and an
/// optional strategy preference.
pub struct User {
    pub wallet_id: String,
    pub subaccount_id: String,
    pub preference: Option<Preference>,
}

/// The mathematical value of a [`User`].
pub ghost struct UserView {
    pub wallet_id: Seq<char>,
    pub subaccount_id: Seq<char>,
    pub preference: Option<PreferenceView>,
}

impl View for User {
    type V = UserView;

    open spec fn view(&self) -> UserView {
        UserView {
            wallet_id: self.wallet_id@,
            subaccount_id: self.subaccount_id@,
            preference: match self.preference {
                Some(p) => Some(p@),
                None => None,
            },
        }
    }
}

/// Why a registry mutation was rejected.
#[derive(Clone, Copy, PartialEq, Eq, Structural, Debug)]
pub enum RegistryError {
    /// The caller is already registered (registration is once per principal).
    AlreadyRegistered,
    /// The caller is not registered.
    UserNotFound,
    /// A seed identifier in the submitted preference is longer than 64
    /// characters.
    SeedTooLong,
}

/// The bound enforced at the mutation boundary: a seed identifier never
/// exceeds 64 characters.
pub open spec fn seed_len_ok(p: PreferenceView) -> bool {
    &&& match p.invested_in {
        InvestOptionView::Burrow { seed_id, .. } => seed_id.len() <= 64,
    }
    &&& match p.reinvest_to {
        ReinvestOptionView::Burrow { seed_id, .. } => seed_id.len() <= 64,
    }
}

/// Whether a participant with the given wallet identity is registered.
pub open spec fn has_user(users: Seq<UserView>, wallet_id: Seq<char>) -> bool {
    exists|i: int| 0 <= i < users.len() && users[i].wallet_id == wallet_id
}

/// The participant registry, keyed by wallet identity.
pub struct Contract {
    users: Vec<User>,
}

fn find_user_index(users: &Vec<User>, wallet_id: &str) -> (r: Option<usize>)
    ensures
        match r {
            Some(i) => 0 <= i < users@.len() && users@[i as int].wallet_id@ == wallet_id@,
            None => forall|i: int| 0 <= i < users@.len() ==> users@[i].wallet_id@ != wallet_id@,
        },
{
    let mut i: usize = 0;
    while i < users.len()
        invariant
            0 <= i <= users@.len(),
            forall|j: int| 0 <= j < i ==> users@[j].wallet_id@ != wallet_id@,
        decreases users@.len() - i,
    {
        if str_eq(users[i].wallet_id.as_str(), wallet_id) {
            return Some(i);
        }
        i += 1;
    }
    None
}

fn clone_invest_option(o: &InvestOption) -> (r: InvestOption)
    ensures
        r@ == o@,
{
    match o {
        InvestOption::Burrow { seed_id, token_id } => InvestOption::Burrow {
            seed_id: seed_id.clone(),
            token_id: token_id.clone(),
        },
    }
}

fn clone_reinvest_option(o: &ReinvestOption) -> (r: ReinvestOption)
    ensures
        r@ == o@,
{
    match o {
        ReinvestOption::Burrow { seed_id, token_id } => ReinvestOption::Burrow {
            seed_id: seed_id.clone(),
            token_id: token_id.clone(),
        },
    }
}

fn clone_preference(p: &Preference) -> (r: Preference)
    ensures
        r@ == p@,
{
    Preference {
        smart_contract_name: p.smart_contract_name.clone(),
        is_active: p.is_active,
        invested_in: clone_invest_option(&p.invested_in),
        reinvest_to: clone_reinvest_option(&p.reinvest_to),
    }
}

fn clone_user(u: &User) -> (r: User)
    ensures
        r@ == u@,
{
    User {
        wallet_id: u.wallet_id.clone(),
        subaccount_id: u.subaccount_id.clone(),
        preference: match &u.preference {
            Some(p) => Some(clone_preference(p)),
            None => None,
        },
    }
}

impl Contract {
    /// The registry as a sequence of participant values, in insertion order.
    pub closed spec fn users_view(&self) -> Seq<UserView> {
        self.users@.map_values(|u: User| u@)
    }

    /// The registry's invariant: wallet identities are unique, and every
    /// stored preference obeys the seed-length bound.
    pub open spec fn wf(&self) -> bool {
        &&& forall|i: int, j: int|
            0 <= i < j < self.users_view().len() ==> self.users_view()[i].wallet_id
                != self.users_view()[j].wallet_id
        &&& forall|i: int|
            0 <= i < self.users_view().len() ==> match #[trigger] self.users_view()[i].preference {
                Some(p) => seed_len_ok(p),
                None => true,
            }
    }

    /// Register the calling principal. Registration is once per principal:
    /// a second attempt is rejected and changes nothing.
    pub fn store_user(&mut self, caller: String, subaccount_id: String) -> (r: Result<
        (),
        RegistryError,
    >)
        requires
            old(self).wf(),
        ensures
            final(self).wf(),
            has_user(old(self).users_view(), caller@) ==> r == Err::<(), RegistryError>(
                RegistryError::AlreadyRegistered,
            ) && final(self).users_view() == old(self).users_view(),
            !has_user(old(self).users_view(), caller@) ==> r == Ok::<(), RegistryError>(())
                && final(self).users_view() =~= old(self).users_view().push(
                UserView { wallet_id: caller@, subaccount_id: subaccount_id@, preference: None },
            ),
    {
        match find_user_index(&self.users, caller.as_str()) {
            Some(i) => {
                proof {
                    assert(self.users_view()[i as int] == self.users@[i as int]@);
                    assert(has_user(self.users_view(), caller@));
                }
                Err(RegistryError::AlreadyRegistered)
            },
            None => {
                let ghost prior = self.users_view();
                let new_user = User { wallet_id: caller, subaccount_id, preference: None };
                let ghost new_view = new_user@;
                self.users.push(new_user);
                proof {
                    assert(forall|i: int|
                        0 <= i < prior.len() ==> (#[trigger] prior[i]) == old(self).users@[i]@);
                    assert(!has_user(prior, caller@));
                    assert(new_view == UserView {
                        wallet_id: caller@,
                        subaccount_id: subaccount_id@,
                        preference: None,
                    });
                    assert(self.users_view() =~= prior.push(new_view));
                }
                Ok(())
            },
        }
    }

    /// Read a participant by wallet identity.
    pub fn get_user(&self, wallet_id: String) -> (r: Option<User>)
        ensures
            match r {
                Some(u) => exists|i: int|
                    0 <= i < self.users_view().len() && self.users_view()[i].wallet_id
                        == wallet_id@ && u@ == self.users_view()[i],
                None => !has_user(self.users_view(), wallet_id@),
            },
    {
        match find_user_index(&self.users, wallet_id.as_str()) {
            Some(i) => {
                let found = clone_user(&self.users[i]);
                proof {
                    assert(self.users_view()[i as int] == self.users@[i as int]@);
                    assert(found@ == self.users_view()[i as int]);
                    assert(self.users_view()[i as int].wallet_id == wallet_id@);
                }
                Some(found)
            },
            None => {
                proof {
                    assert(forall|i: int|
                        0 <= i < self.users@.len() ==> (#[trigger] self.users_view()[i])
                            == self.users@[i]@);
                }
                None
            },
        }
    }

    /// Replace the calling principal's strategy preference. The mutation
    /// boundary rejects a preference whose seed identifiers exceed 64
    /// characters; nothing is stored in that case.
    pub fn update_preference(&mut self, caller: String, preference: Preference) -> (r: Result<
        (),
        RegistryError,
    >)
        requires
            old(self).wf(),
        ensures
            final(self).wf(),
            !has_user(old(self).users_view(), caller@) ==> r == Err::<(), RegistryError>(
                RegistryError::UserNotFound,
            ) && final(self).users_view() == old(self).users_view(),
            has_user(old(self).users_view(), caller@) && !seed_len_ok(preference@) ==> r == Err::<
                (),
                RegistryError,
            >(RegistryError::SeedTooLong) && final(self).users_view() == old(self).users_view(),
            has_user(old(self).users_view(), caller@) && seed_len_ok(preference@) ==> r == Ok::<
                (),
                RegistryError,
            >(()) && exists|i: int|
                0 <= i < old(self).users_view().len() && old(self).users_view()[i].wallet_id
                    == caller@ && final(self).users_view() =~= old(self).users_view().update(
                    i,
                    UserView { preference: Some(preference@), ..old(self).users_view()[i] },
                ),
    {
        let idx = match find_user_index(&self.users, caller.as_str()) {
            Some(i) => i,
            None => {
                return Err(RegistryError::UserNotFound);
            },
        };
        let invest_seed_ok = match &preference.invested_in {
            InvestOption::Burrow { seed_id, .. } => seed_id.as_str().unicode_len() <= 64,
        };
        let reinvest_seed_ok = match &preference.reinvest_to {
            ReinvestOption::Burrow { seed_id, .. } => seed_id.as_str().unicode_len() <= 64,
        };
        if !invest_seed_ok || !reinvest_seed_ok {
            return Err(RegistryError::SeedTooLong);
        }
        let ghost pref_view = preference@;
        let updated = User {
            wallet_id: self.users[idx].wallet_id.clone(),
            subaccount_id: self.users[idx].subaccount_id.clone(),
            preference: Some(preference),
        };
        self.users[idx] = updated;
        proof {
            assert(self.users_view() =~= old(self).users_view().update(
                idx as int,
                UserView { preference: Some(pref_view), ..old(self).users_view()[idx as int] },
            ));
        }
        Ok(())
    }

    /// Remove the calling principal's strategy preference, if any. Removing
    /// an absent preference is a no-op, not an error.
    pub fn delete_preference(&mut self, caller: String) -> (r: Result<(), RegistryError>)
        requires
            old(self).wf(),
        ensures
            final(self).wf(),
            !has_user(old(self).users_view(), caller@) ==> r == Err::<(), RegistryError>(
                RegistryError::UserNotFound,
            ) && final(self).users_view() == old(self).users_view(),
            has_user(old(self).users_view(), caller@) ==> r == Ok::<(), RegistryError>(())
                && exists|i: int|
                0 <= i < old(self).users_view().len() && old(self).users_view()[i].wallet_id
                    == caller@ && final(self).users_view() =~= old(self).users_view().update(
                    i,
                    UserView { preference: None, ..old(self).users_view()[i] },
                ),
    {
        let idx = match find_user_index(&self.users, caller.as_str()) {
            Some(i) => i,
            None => {
                return Err(RegistryError::UserNotFound);
            },
        };
        let cleared = User {
            wallet_id: self.users[idx].wallet_id.clone(),
            subaccount_id: self.users[idx].subaccount_id.clone(),
            preference: None,
        };
        self.users[idx] = cleared;
        proof {
            assert(self.users_view() =~= old(self).users_view().update(
                idx as int,
                UserView { preference: None, ..old(self).users_view()[idx as int] },
            ));
        }
        Ok(())
    }
}

impl Default for Contract {
    /// An empty registry.
    fn default() -> (c: Self)
        ensures
            c.users_view() =~= Seq::<UserView>::empty(),
            c.wf(),
    {
        Contract { users: Vec::new() }
    }
}

} // verus!
