//! The access guard.
//!
//! A trigger is allowed when the caller is the contract itself, the root
//! operator, or the owner identity derived from the contract's own identity.
//! The derivation: when the contract identity lies in the root operator's
//! namespace (it ends in `"." + root_operator`), stripping that suffix gives
//! a delegate name; a raw 64-character hexadecimal delegate names its owner
//! verbatim, and any other delegate is mapped into an owner identity by the
//! configured [`OwnerPolicy`]. The mapping has varied across deployment
//! revisions, so it is explicit configuration here rather than a fixed rule.

use vstd::prelude::*;

use crate::account::{is_hex_account_name, is_hex_name};
use crate::text::str_eq;

verus! {

/// How a delegate name is mapped into the expected owner identity.
pub enum OwnerPolicy {
    /// Every `-` in the delegate name becomes `.`.
    DashToDot,
    /// The configured fixed suffix is appended to the delegate name.
    AppendSuffix(String),
}

/// The mathematical value of an [`OwnerPolicy`].
pub ghost enum OwnerPolicyView {
    DashToDot,
    AppendSuffix(Seq<char>),
}

impl View for OwnerPolicy {
    type V = OwnerPolicyView;

    open spec fn view(&self) -> OwnerPolicyView {
        match self {
            OwnerPolicy::DashToDot => OwnerPolicyView::DashToDot,
            OwnerPolicy::AppendSuffix(suffix) => OwnerPolicyView::AppendSuffix(suffix@),
        }
    }
}

/// The guard's configuration: the root operator identity and the owner
/// derivation rule in force.
pub struct AccessGuard {
    pub root_operator: String,
    pub policy: OwnerPolicy,
}

/// The mathematical value of an [`AccessGuard`].
pub ghost struct GuardView {
    pub root_operator: Seq<char>,
    pub policy: OwnerPolicyView,
}

impl View for AccessGuard {
    type V = GuardView;

    open spec fn view(&self) -> GuardView {
        GuardView { root_operator: self.root_operator@, policy: self.policy@ }
    }
}

/// The decision of the guard.
#[derive(Clone, Copy, PartialEq, Eq, Structural, Debug)]
pub enum AuthDecision {
    Allowed,
    Denied,
}

/// Whether `self_id` lies in the namespace of `root` (ends in `"." + root`,
/// with a nonempty delegate name in front).
pub open spec fn in_root_namespace(self_id: Seq<char>, root: Seq<char>) -> bool {
    &&& self_id.len() > root.len() + 1
    &&& self_id.subrange(self_id.len() - root.len() - 1, self_id.len() as int) == seq!['.']
        + root
}

/// The delegate name: `self_id` with the `"." + root` suffix stripped.
pub open spec fn delegate_name(self_id: Seq<char>, root: Seq<char>) -> Seq<char> {
    self_id.subrange(0, self_id.len() - root.len() - 1)
}

/// `s` with every `-` replaced by `.`.
pub open spec fn dash_to_dot(s: Seq<char>) -> Seq<char> {
    s.map_values(|c: char| if c == '-' { '.' } else { c })
}

/// The owner identity derived from the contract's own identity, if any.
pub open spec fn expected_owner(self_id: Seq<char>, g: GuardView) -> Option<Seq<char>> {
    if in_root_namespace(self_id, g.root_operator) {
        let delegate = delegate_name(self_id, g.root_operator);
        if is_hex_name(delegate) {
            Some(delegate)
        } else {
            match g.policy {
                OwnerPolicyView::DashToDot => Some(dash_to_dot(delegate)),
                OwnerPolicyView::AppendSuffix(suffix) => Some(delegate + suffix),
            }
        }
    } else {
        None
    }
}

/// The guard's rule: the contract itself, the root operator, and the derived
/// owner are allowed; everyone else is denied.
pub open spec fn authorized(g: GuardView, caller: Seq<char>, self_id: Seq<char>) -> bool {
    ||| caller == self_id
    ||| caller == g.root_operator
    ||| expected_owner(self_id, g) == Some(caller)
}

fn dash_to_dot_matches(caller: &str, delegate: &str) -> (b: bool)
    ensures
        b == (caller@ == dash_to_dot(delegate@)),
{
    let n = caller.unicode_len();
    let k = delegate.unicode_len();
    assert(dash_to_dot(delegate@).len() == delegate@.len());
    if n != k {
        return false;
    }
    let mut i: usize = 0;
    while i < k
        invariant
            0 <= i <= k,
            n == k,
            n == caller@.len(),
            k == delegate@.len(),
            forall|j: int| 0 <= j < i ==> caller@[j] == dash_to_dot(delegate@)[j],
        decreases k - i,
    {
        let dc = delegate.get_char(i);
        let expect: char = if dc == '-' {
            '.'
        } else {
            dc
        };
        let cc = caller.get_char(i);
        if cc != expect {
            assert(caller@ != dash_to_dot(delegate@));
            return false;
        }
        i += 1;
    }
    proof {
        assert(caller@ =~= dash_to_dot(delegate@));
    }
    true
}

fn concat_matches(caller: &str, delegate: &str, suffix: &str) -> (b: bool)
    ensures
        b == (caller@ == delegate@ + suffix@),
{
    let n = caller.unicode_len();
    let k = delegate.unicode_len();
    let m = suffix.unicode_len();
    if n < k || n - k != m {
        assert((delegate@ + suffix@).len() != caller@.len());
        return false;
    }
    let head = caller.substring_char(0, k);
    if !str_eq(head, delegate) {
        assert(caller@ != delegate@ + suffix@) by {
            if caller@ == delegate@ + suffix@ {
                assert(head@ =~= delegate@);
            }
        }
        return false;
    }
    let tail = caller.substring_char(k, n);
    if !str_eq(tail, suffix) {
        assert(caller@ != delegate@ + suffix@) by {
            if caller@ == delegate@ + suffix@ {
                assert(tail@ =~= suffix@);
            }
        }
        return false;
    }
    proof {
        assert(caller@ =~= delegate@ + suffix@);
    }
    true
}

impl AccessGuard {
    /// Whether `caller` equals the owner identity derived from
    /// `self_identity`, under this guard's configuration.
    fn matches_expected_owner(&self, caller: &str, self_identity: &str) -> (b: bool)
        ensures
            b == (expected_owner(self_identity@, self@) == Some(caller@)),
    {
        let n = self_identity.unicode_len();
        let root = self.root_operator.as_str();
        let rn = root.unicode_len();
        if n == 0 || rn >= n - 1 {
            assert(!in_root_namespace(self_identity@, root@));
            return false;
        }
        let dot = self_identity.get_char(n - rn - 1);
        let suffix = self_identity.substring_char(n - rn, n);
        if dot != '.' || !str_eq(suffix, root) {
            assert(!in_root_namespace(self_identity@, root@)) by {
                if in_root_namespace(self_identity@, root@) {
                    let tail = self_identity@.subrange(
                        n - rn - 1,
                        n as int,
                    );
                    assert(tail == seq!['.'] + root@);
                    assert(tail[0] == '.');
                    assert(dot == tail[0]);
                    assert(forall|j: int|
                        0 <= j < rn ==> #[trigger] suffix@[j] == tail[j + 1] && tail[j + 1]
                            == root@[j]);
                    assert(suffix@ =~= root@);
                }
            }
            return false;
        }
        proof {
            assert(in_root_namespace(self_identity@, root@)) by {
                assert(self_identity@.subrange(n - rn - 1, n as int) =~= seq!['.'] + root@);
            }
        }
        let delegate = self_identity.substring_char(0, n - rn - 1);
        if is_hex_account_name(delegate) {
            str_eq(caller, delegate)
        } else {
            match &self.policy {
                OwnerPolicy::DashToDot => dash_to_dot_matches(caller, delegate),
                OwnerPolicy::AppendSuffix(suffix) => concat_matches(
                    caller,
                    delegate,
                    suffix.as_str(),
                ),
            }
        }
    }

    /// Decide whether `caller` may trigger a workflow on the contract whose
    /// own identity is `self_identity`. Pure: no state is read or changed.
    pub fn authorize(&self, caller: &str, self_identity: &str) -> (d: AuthDecision)
        ensures
            authorized(self@, caller@, self_identity@) ==> d == AuthDecision::Allowed,
            !authorized(self@, caller@, self_identity@) ==> d == AuthDecision::Denied,
    {
        if str_eq(caller, self_identity) {
            return AuthDecision::Allowed;
        }
        if str_eq(caller, self.root_operator.as_str()) {
            return AuthDecision::Allowed;
        }
        if self.matches_expected_owner(caller, self_identity) {
            return AuthDecision::Allowed;
        }
        AuthDecision::Denied
    }
}

/// A principal other than the contract itself and the root operator is
/// denied unless it is exactly the owner derived from the contract's own
/// identity.
pub proof fn lemma_guard_denies_strangers(g: GuardView, caller: Seq<char>, self_id: Seq<char>)
    requires
        caller != self_id,
        caller != g.root_operator,
        expected_owner(self_id, g) != Some(caller),
    ensures
        !authorized(g, caller, self_id),
{
}

} // verus!
