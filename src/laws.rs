use vstd::prelude::*;

use crate::error::ApprovalError;
use crate::manager::{ApprovalConfig, ManagerView};

verus! {

/// One state change of the manager, with its arguments: a call that was refused changes
/// nothing and needs no step.
pub enum Step {
    Mint(Seq<char>, Seq<char>),
    Approve(Seq<char>, Seq<char>),
    Revoke(Seq<char>, Seq<char>),
    RevokeAll(Seq<char>),
    Transfer(Seq<char>, Seq<char>),
}

/// The state after `step`. A token exists once; approvals and revocations need the token,
/// and an approval needs an id left to give.
pub open spec fn apply(v: ManagerView, step: Step) -> ManagerView {
    match step {
        Step::Mint(t, o) => if v.owners.contains_key(t) { v } else { v.mint(t, o) },
        Step::Approve(t, a) => if v.owners.contains_key(t) && v.token(t).next_approval_id < u64::MAX {
            v.approve(t, a)
        } else {
            v
        },
        Step::Revoke(t, a) => if v.owners.contains_key(t) { v.revoke(t, a) } else { v },
        Step::RevokeAll(t) => v.revoke_all(t),
        Step::Transfer(t, o) => if v.owners.contains_key(t) { v.transfer(t, o) } else { v },
    }
}

/// The state after `steps`, in order.
pub open spec fn run(v: ManagerView, steps: Seq<Step>) -> ManagerView
    decreases steps.len(),
{
    if steps.len() == 0 {
        v
    } else {
        apply(run(v, steps.drop_last()), steps.last())
    }
}

/// An account becomes approved for a token only through an approval of that account for
/// that token.
pub proof fn law_approved_only_through_approve(v: ManagerView, steps: Seq<Step>, token: Seq<char>, account: Seq<char>)
    requires
        !v.is_approved(token, account, None),
        run(v, steps).is_approved(token, account, None),
    ensures
        exists|i: int| 0 <= i < steps.len() && steps[i] == Step::Approve(token, account),
    decreases steps.len(),
{
    let before = run(v, steps.drop_last());
    if before.is_approved(token, account, None) {
        law_approved_only_through_approve(v, steps.drop_last(), token, account);
        let i = choose|i: int| 0 <= i < steps.drop_last().len() && steps.drop_last()[i] == Step::Approve(token, account);
        assert(steps[i] == Step::Approve(token, account));
    } else {
        let last = steps.last();
        match last {
            Step::Approve(t, a) => {
                if t != token || a != account {
                    assert(!apply(before, last).is_approved(token, account, None));
                }
            }
            _ => {
                assert(!apply(before, last).is_approved(token, account, None));
            }
        }
        assert(steps[steps.len() - 1] == Step::Approve(token, account));
    }
}

/// Every sequence of steps keeps the state valid: ids held stay below each token's next id,
/// and approvals are kept only for tokens that exist.
pub proof fn law_steps_keep_valid(v: ManagerView, steps: Seq<Step>)
    requires
        v.valid(),
    ensures
        run(v, steps).valid(),
    decreases steps.len(),
{
    if steps.len() > 0 {
        law_steps_keep_valid(v, steps.drop_last());
        let w = run(v, steps.drop_last());
        let u = apply(w, steps.last());
        assert forall|t: Seq<char>| #[trigger] u.tokens.contains_key(t) implies u.tokens[t].valid() by {
            assert(w.token(t).valid());
            if w.tokens.contains_key(t) {
                assert(w.tokens[t].valid());
            }
            match steps.last() {
                Step::Approve(t2, a) => {
                    if t2 == t && w.owners.contains_key(t) && w.token(t).next_approval_id < u64::MAX {
                        let n = w.token(t);
                        assert forall|b: Seq<char>| #[trigger] n.approve(a).approvals.contains_key(b)
                            implies n.approve(a).approvals[b] < n.approve(a).next_approval_id by {
                            if b != a {
                                assert(n.approvals.contains_key(b));
                            }
                        }
                    }
                }
                _ => {}
            }
        }
    }
}

/// A newly recorded token has no approved account.
pub proof fn law_new_token_unapproved(v: ManagerView, token: Seq<char>, owner: Seq<char>, account: Seq<char>)
    requires
        v.valid(),
        !v.owners.contains_key(token),
    ensures
        !v.mint(token, owner).is_approved(token, account, None),
{
}

/// A granted approval makes the account approved, under exactly the id it received: a
/// stale id no longer validates.
pub proof fn law_approval_id_current(
    v: ManagerView,
    config: ApprovalConfig,
    caller: Seq<char>,
    token: Seq<char>,
    account: Seq<char>,
    deposit: u128,
    gas: u64,
    with_msg: bool,
    other_id: u64,
)
    requires
        v.approve_error(config, caller, token, account, deposit, gas, with_msg) is None,
        other_id != v.token(token).next_approval_id,
    ensures
        v.approve(token, account).is_approved(token, account, None),
        v.approve(token, account).is_approved(token, account, Some(v.token(token).next_approval_id)),
        !v.approve(token, account).is_approved(token, account, Some(other_id)),
{
}

/// No step lowers a token's next approval id.
pub proof fn law_next_id_never_decreases(v: ManagerView, steps: Seq<Step>, token: Seq<char>)
    ensures
        v.token(token).next_approval_id <= run(v, steps).token(token).next_approval_id,
    decreases steps.len(),
{
    if steps.len() > 0 {
        law_next_id_never_decreases(v, steps.drop_last(), token);
    }
}

/// Once an approval of `token` received an id, every later approval of it, of the same
/// account or another, whatever came between, receives a greater one.
pub proof fn law_later_approval_id_greater(
    v: ManagerView,
    steps: Seq<Step>,
    token: Seq<char>,
    account: Seq<char>,
)
    requires
        v.token(token).next_approval_id < u64::MAX,
    ensures
        v.token(token).next_approval_id < run(v.approve(token, account), steps).token(token).next_approval_id,
{
    law_next_id_never_decreases(v.approve(token, account), steps, token);
}

/// An id that an account holds lies below the id that the token gives next.
pub proof fn law_held_ids_below_next(v: ManagerView, token: Seq<char>, account: Seq<char>)
    requires
        v.valid(),
        v.token(token).approvals.contains_key(account),
    ensures
        v.token(token).approvals[account] < v.token(token).next_approval_id,
{
}

/// The owner's revocation of an approval that does not exist fails with
/// `ApprovalDoesNotExist`.
pub proof fn law_revoke_missing_fails(v: ManagerView, caller: Seq<char>, token: Seq<char>, account: Seq<char>)
    requires
        v.owners.contains_key(token),
        v.owners[token] == caller,
        !v.token(token).approvals.contains_key(account),
    ensures
        v.revoke_error(caller, token, account) == Some(ApprovalError::ApprovalDoesNotExist),
{
}

/// The owner's revocation of all approvals never fails, also where none is left, and
/// doing it twice is doing it once.
pub proof fn law_revoke_all_by_owner_succeeds(v: ManagerView, caller: Seq<char>, token: Seq<char>)
    requires
        v.owners.contains_key(token),
        v.owners[token] == caller,
    ensures
        v.revoke_all_error(caller, token) is None,
        v.revoke_all(token).revoke_all_error(caller, token) is None,
        v.revoke_all(token).revoke_all(token) == v.revoke_all(token),
        v.revoke_all(token).token(token).approvals.len() == 0,
{
    let w = v.revoke_all(token);
    if v.tokens.contains_key(token) {
        assert(w.revoke_all(token).tokens =~= w.tokens);
    }
}

/// An approval by anyone but the token's owner fails with `NotOwner`; a refused approval
/// leaves the state as it was.
pub proof fn law_non_owner_refused(
    v: ManagerView,
    config: ApprovalConfig,
    caller: Seq<char>,
    token: Seq<char>,
    account: Seq<char>,
    deposit: u128,
    gas: u64,
    with_msg: bool,
)
    requires
        v.owners.contains_key(token),
        v.owners[token] != caller,
    ensures
        v.approve_error(config, caller, token, account, deposit, gas, with_msg) == Some(ApprovalError::NotOwner),
{
}

} // verus!
