use vstd::prelude::*;
use vstd::string::*;

use crate::approvals::TokenView;
use crate::error::ApprovalError;
use crate::notifier::{resolve, settled, result_view, PendingCall, ReceiverOutcome};
use crate::store::{token_of, valid_tokens, ApprovalStore};
use crate::str_map::StrMap;

verus! {

/// Bytes that an approval entry takes beside its account id: a length prefix and the id.
pub const ENTRY_OVERHEAD_BYTES: u64 = 12;

/// The limits under which approvals are granted.
#[derive(Debug, Clone, Copy, PartialEq, Eq, Structural)]
pub struct ApprovalConfig {
    /// The most accounts that one token may have approved at once.
    pub max_approvals: usize,
    /// The price of one byte of storage.
    pub storage_byte_cost: u128,
    /// The budget that an approval keeps for itself and its callback.
    pub gas_for_approve: u64,
    /// The least budget that the receiver's call must be left.
    pub min_gas_for_receiver: u64,
}

/// What the manager holds: the owner of each token, and each token's approvals.
pub struct ManagerView {
    pub owners: Map<Seq<char>, Seq<char>>,
    pub tokens: Map<Seq<char>, TokenView>,
}

impl ManagerView {
    /// Approval state is kept only for tokens that exist, and every token's is valid.
    pub open spec fn valid(self) -> bool {
        &&& valid_tokens(self.tokens)
        &&& forall|t: Seq<char>| #[trigger] self.tokens.contains_key(t) ==> self.owners.contains_key(t)
    }

    /// No token has more than `max` approved accounts.
    pub open spec fn within_limit(self, max: usize) -> bool {
        forall|t: Seq<char>| #[trigger] self.tokens.contains_key(t) ==> self.tokens[t].approvals.len() <= max
    }

    /// The approvals of `token`.
    pub open spec fn token(self, token: Seq<char>) -> TokenView {
        token_of(self.tokens, token)
    }

    /// Whether `account` is approved for `token`, with exactly `approval_id` where one is given.
    pub open spec fn is_approved(self, token: Seq<char>, account: Seq<char>, approval_id: Option<u64>) -> bool {
        &&& self.token(token).approvals.contains_key(account)
        &&& match approval_id {
            Some(id) => self.token(token).approvals[account] == id,
            None => true,
        }
    }

    /// Storage that a new approval of `account` for `token` takes, in bytes: none where
    /// the account is approved already.
    pub open spec fn new_storage_bytes(self, token: Seq<char>, account: Seq<char>) -> int {
        if self.token(token).approvals.contains_key(account) {
            0
        } else {
            account.len() + ENTRY_OVERHEAD_BYTES
        }
    }

    /// The deposit that approving `account` for `token` requires.
    pub open spec fn required_deposit(self, config: ApprovalConfig, token: Seq<char>, account: Seq<char>) -> int {
        self.new_storage_bytes(token, account) * config.storage_byte_cost
    }

    /// Why `caller` may not approve `account` for `token` with this deposit and budget,
    /// checked in this order; `None` when the approval goes ahead.
    pub open spec fn approve_error(
        self,
        config: ApprovalConfig,
        caller: Seq<char>,
        token: Seq<char>,
        account: Seq<char>,
        deposit: u128,
        gas: u64,
        with_msg: bool,
    ) -> Option<ApprovalError> {
        if !self.owners.contains_key(token) {
            Some(ApprovalError::TokenNotFound)
        } else if self.owners[token] != caller {
            Some(ApprovalError::NotOwner)
        } else if with_msg && gas < config.gas_for_approve + config.min_gas_for_receiver {
            Some(ApprovalError::InsufficientGas)
        } else if !self.token(token).approvals.contains_key(account)
            && self.token(token).approvals.len() >= config.max_approvals {
            Some(ApprovalError::TooManyApprovals)
        } else if deposit < self.required_deposit(config, token, account) {
            Some(ApprovalError::InsufficientDeposit)
        } else {
            None
        }
    }

    /// The state after `account` is approved for `token`.
    pub open spec fn approve(self, token: Seq<char>, account: Seq<char>) -> ManagerView {
        ManagerView { tokens: self.tokens.insert(token, self.token(token).approve(account)), ..self }
    }

    /// Why `caller` may not revoke `account`'s approval of `token`; `None` when it goes ahead.
    pub open spec fn revoke_error(self, caller: Seq<char>, token: Seq<char>, account: Seq<char>) -> Option<ApprovalError> {
        if !self.owners.contains_key(token) {
            Some(ApprovalError::TokenNotFound)
        } else if self.owners[token] != caller {
            Some(ApprovalError::NotOwner)
        } else if !self.token(token).approvals.contains_key(account) {
            Some(ApprovalError::ApprovalDoesNotExist)
        } else {
            None
        }
    }

    /// The state after `account`'s approval of `token` is revoked.
    pub open spec fn revoke(self, token: Seq<char>, account: Seq<char>) -> ManagerView {
        ManagerView { tokens: self.tokens.insert(token, self.token(token).revoke(account)), ..self }
    }

    /// Why `caller` may not revoke all approvals of `token`; `None` when it goes ahead.
    pub open spec fn revoke_all_error(self, caller: Seq<char>, token: Seq<char>) -> Option<ApprovalError> {
        if !self.owners.contains_key(token) {
            Some(ApprovalError::TokenNotFound)
        } else if self.owners[token] != caller {
            Some(ApprovalError::NotOwner)
        } else {
            None
        }
    }

    /// The state after every approval of `token` is revoked.
    pub open spec fn revoke_all(self, token: Seq<char>) -> ManagerView {
        if self.tokens.contains_key(token) {
            ManagerView { tokens: self.tokens.insert(token, self.tokens[token].revoke_all()), ..self }
        } else {
            self
        }
    }

    /// The state after `token` is recorded with owner `owner`.
    pub open spec fn mint(self, token: Seq<char>, owner: Seq<char>) -> ManagerView {
        ManagerView { owners: self.owners.insert(token, owner), ..self }
    }

    /// The state after `token` passes to `new_owner`: its approvals are cleared.
    pub open spec fn transfer(self, token: Seq<char>, new_owner: Seq<char>) -> ManagerView {
        ManagerView { owners: self.owners.insert(token, new_owner), ..self.revoke_all(token) }
    }
}

/// What a granted approval yields.
#[derive(Debug, Clone, PartialEq, Eq)]
pub struct ApproveOutcome {
    /// The id that the approval received.
    pub approval_id: u64,
    /// The part of the deposit that storage did not take, owed back to the caller.
    pub refund: u128,
    /// The receiver's notification, where the approval carried a message. Its callback's
    /// result is then the result of the approval call.
    pub pending: Option<PendingCall>,
}

/// Grants, revokes and answers queries on token approvals for the contract `contract_id`.
pub struct ApprovalManager {
    contract_id: String,
    config: ApprovalConfig,
    owners: StrMap<String>,
    store: ApprovalStore,
}

impl View for ApprovalManager {
    type V = ManagerView;

    closed spec fn view(&self) -> ManagerView {
        ManagerView { owners: self.owners@.map_values(|o: String| o@), tokens: self.store@ }
    }
}

impl ApprovalManager {
    pub closed spec fn wf(&self) -> bool {
        &&& self.owners.wf()
        &&& self.store.wf()
        &&& forall|t: Seq<char>| #[trigger] self.store@.contains_key(t) ==> self.owners@.contains_key(t)
        &&& self@.within_limit(self.config.max_approvals)
    }

    /// The account of the contract itself.
    pub closed spec fn spec_contract_id(&self) -> Seq<char> {
        self.contract_id@
    }

    /// The limits in force.
    pub closed spec fn spec_config(&self) -> ApprovalConfig {
        self.config
    }

    /// The manager's state is valid.
    pub proof fn lemma_valid(&self)
        requires
            self.wf(),
        ensures
            self@.valid(),
            self@.within_limit(self.spec_config().max_approvals),
    {
        self.store.lemma_valid();
    }

    /// A manager for contract `contract_id` with no tokens.
    pub fn new(contract_id: &str, config: ApprovalConfig) -> (r: Self)
        ensures
            r.wf(),
            r.spec_contract_id() == contract_id@,
            r.spec_config() == config,
            r@.owners == Map::<Seq<char>, Seq<char>>::empty(),
            r@.tokens == Map::<Seq<char>, TokenView>::empty(),
    {
        let r = ApprovalManager {
            contract_id: contract_id.to_owned(),
            config,
            owners: StrMap::new(),
            store: ApprovalStore::new(),
        };
        assert(r@.owners =~= Map::<Seq<char>, Seq<char>>::empty());
        r
    }

    /// The limits in force.
    pub fn config(&self) -> (r: ApprovalConfig)
        ensures
            r == self.spec_config(),
    {
        self.config
    }

    /// The owner of `token_id`, if the token exists.
    pub fn owner_of(&self, token_id: &str) -> (r: Option<String>)
        requires
            self.wf(),
        ensures
            match r {
                Some(o) => self@.owners.contains_key(token_id@) && o@ == self@.owners[token_id@],
                None => !self@.owners.contains_key(token_id@),
            },
    {
        let t = token_id.to_owned();
        match self.owners.get(&t) {
            Some(o) => Some(o.clone()),
            None => None,
        }
    }

    /// Records the new token `token_id` owned by `owner_id`, with no approvals; false, and
    /// nothing changed, where the token exists already.
    pub fn mint(&mut self, token_id: &str, owner_id: &str) -> (r: bool)
        requires
            old(self).wf(),
        ensures
            final(self).wf(),
            final(self).spec_contract_id() == old(self).spec_contract_id(),
            final(self).spec_config() == old(self).spec_config(),
            r == !old(self)@.owners.contains_key(token_id@),
            r ==> final(self)@ == old(self)@.mint(token_id@, owner_id@),
            !r ==> final(self)@ == old(self)@,
    {
        let t = token_id.to_owned();
        if self.owners.contains(&t) {
            return false;
        }
        let ghost before = self@;
        self.owners.insert(t, owner_id.to_owned());
        assert(self@.owners =~= before.owners.insert(token_id@, owner_id@));
        assert(self@.tokens == before.tokens);
        true
    }

    /// The id that the next approval of `token_id` will receive.
    pub fn next_approval_id(&self, token_id: &str) -> (r: u64)
        requires
            self.wf(),
        ensures
            r == self@.token(token_id@).next_approval_id,
    {
        self.store.next_approval_id(&token_id.to_owned())
    }

    /// How many accounts are approved for `token_id`.
    pub fn approval_count(&self, token_id: &str) -> (n: usize)
        requires
            self.wf(),
        ensures
            n == self@.token(token_id@).approvals.len(),
    {
        self.store.approval_count(&token_id.to_owned())
    }

    /// The deposit that approving `account` for `token` takes; `None` where it exceeds every
    /// amount that can be attached.
    fn required_deposit(&self, token: &String, account: &str, already: bool) -> (r: Option<u128>)
        requires
            self.wf(),
            already == self@.token(token@).approvals.contains_key(account@),
        ensures
            match r {
                Some(d) => d == self@.required_deposit(self.config, token@, account@),
                None => self@.required_deposit(self.config, token@, account@) > u128::MAX,
            },
    {
        if already {
            return Some(0);
        }
        let bytes: u128 = account.unicode_len() as u128 + ENTRY_OVERHEAD_BYTES as u128;
        let r = bytes.checked_mul(self.config.storage_byte_cost);
        proof {
            assert(self@.new_storage_bytes(token@, account@) == bytes);
        }
        r
    }

    /// `caller` approves `account_id` for `token_id`, attaching `deposit` and the budget
    /// `prepaid_gas`. The account receives the token's next id, replacing any it held. With
    /// a message, the result also holds the receiver's notification. A refusal changes
    /// nothing and takes nothing of the deposit.
    pub fn approve(
        &mut self,
        caller: &str,
        token_id: &str,
        account_id: &str,
        deposit: u128,
        prepaid_gas: u64,
        msg: Option<String>,
    ) -> (r: Result<ApproveOutcome, ApprovalError>)
        requires
            old(self).wf(),
            old(self)@.token(token_id@).next_approval_id < u64::MAX,
        ensures
            final(self).wf(),
            final(self).spec_contract_id() == old(self).spec_contract_id(),
            final(self).spec_config() == old(self).spec_config(),
            match old(self)@.approve_error(old(self).spec_config(), caller@, token_id@, account_id@, deposit, prepaid_gas, msg is Some) {
                Some(e) => r == Err::<ApproveOutcome, ApprovalError>(e) && final(self)@ == old(self)@,
                None => r is Ok && {
                    let o = r->Ok_0;
                    &&& o.approval_id == old(self)@.token(token_id@).next_approval_id
                    &&& o.refund == deposit - old(self)@.required_deposit(old(self).spec_config(), token_id@, account_id@)
                    &&& final(self)@ == old(self)@.approve(token_id@, account_id@)
                    &&& match msg {
                        None => o.pending is None,
                        Some(m) => o.pending is Some && {
                            let p = o.pending->Some_0;
                            &&& p.receiver_id@ == account_id@
                            &&& p.owner_id@ == caller@
                            &&& p.token_id@ == token_id@
                            &&& p.approval_id == o.approval_id
                            &&& p.msg == m
                            &&& p.gas == prepaid_gas - old(self).spec_config().gas_for_approve
                        },
                    }
                },
            },
    {
        let token = token_id.to_owned();
        let owner = match self.owners.get(&token) {
            Some(o) => o.clone(),
            None => return Err(ApprovalError::TokenNotFound),
        };
        let caller_s = caller.to_owned();
        if owner != caller_s {
            return Err(ApprovalError::NotOwner);
        }
        if msg.is_some() {
            if prepaid_gas < self.config.gas_for_approve
                || prepaid_gas - self.config.gas_for_approve < self.config.min_gas_for_receiver {
                return Err(ApprovalError::InsufficientGas);
            }
        }
        let account = account_id.to_owned();
        let already = self.store.approval_id(&token, &account).is_some();
        if !already && self.store.approval_count(&token) >= self.config.max_approvals {
            return Err(ApprovalError::TooManyApprovals);
        }
        let required = match self.required_deposit(&token, account_id, already) {
            Some(d) => d,
            None => return Err(ApprovalError::InsufficientDeposit),
        };
        if deposit < required {
            return Err(ApprovalError::InsufficientDeposit);
        }
        let ghost before = self@;
        proof {
            self.store.lemma_valid();
        }
        let approval_id = self.store.set_approval(&token, account);
        proof {
            assert(self@.owners == before.owners);
            assert(self@.tokens == before.approve(token_id@, account_id@).tokens);
            let n = before.token(token_id@);
            assert(valid_tokens(before.tokens));
            assert(n.approvals.dom().finite());
            if already {
                assert(n.approve(account_id@).approvals.dom() =~= n.approvals.dom());
            }
            assert(self@.tokens[token_id@].approvals.len() <= self.config.max_approvals);
        }
        let pending = match msg {
            Some(m) => Some(PendingCall {
                receiver_id: account_id.to_owned(),
                owner_id: caller_s,
                token_id: token,
                approval_id,
                msg: m,
                gas: prepaid_gas - self.config.gas_for_approve,
            }),
            None => None,
        };
        Ok(ApproveOutcome { approval_id, refund: deposit - required, pending })
    }

    /// Whether `account_id` is approved for `token_id`, with exactly `approval_id` where
    /// one is given. Anyone may ask; an unknown token has no approvals.
    pub fn is_approved(&self, token_id: &str, account_id: &str, approval_id: Option<u64>) -> (r: bool)
        requires
            self.wf(),
        ensures
            r == self@.is_approved(token_id@, account_id@, approval_id),
    {
        match self.store.approval_id(&token_id.to_owned(), &account_id.to_owned()) {
            Some(held) => match approval_id {
                Some(id) => held == id,
                None => true,
            },
            None => false,
        }
    }

    /// Whether `caller` owns `token`: `Err` with why not.
    fn check_owner(&self, caller: &str, token: &String) -> (r: Result<(), ApprovalError>)
        requires
            self.wf(),
        ensures
            r == (if !self@.owners.contains_key(token@) {
                Err::<(), ApprovalError>(ApprovalError::TokenNotFound)
            } else if self@.owners[token@] != caller@ {
                Err(ApprovalError::NotOwner)
            } else {
                Ok(())
            }),
    {
        match self.owners.get(token) {
            Some(o) => {
                if *o != caller.to_owned() {
                    Err(ApprovalError::NotOwner)
                } else {
                    Ok(())
                }
            }
            None => Err(ApprovalError::TokenNotFound),
        }
    }

    /// `caller` revokes the approval of `account_id` for `token_id`. A refusal changes nothing.
    pub fn revoke(&mut self, caller: &str, token_id: &str, account_id: &str) -> (r: Result<(), ApprovalError>)
        requires
            old(self).wf(),
        ensures
            final(self).wf(),
            final(self).spec_contract_id() == old(self).spec_contract_id(),
            final(self).spec_config() == old(self).spec_config(),
            match old(self)@.revoke_error(caller@, token_id@, account_id@) {
                Some(e) => r == Err::<(), ApprovalError>(e) && final(self)@ == old(self)@,
                None => r is Ok && final(self)@ == old(self)@.revoke(token_id@, account_id@),
            },
    {
        let token = token_id.to_owned();
        self.check_owner(caller, &token)?;
        let ghost before = self@;
        proof {
            self.store.lemma_valid();
        }
        if !self.store.remove_approval(&token, &account_id.to_owned()) {
            return Err(ApprovalError::ApprovalDoesNotExist);
        }
        proof {
            assert(self@.tokens == before.revoke(token_id@, account_id@).tokens);
            let n = before.token(token_id@);
            assert(n.approvals.dom().finite());
            assert(n.revoke(account_id@).approvals.dom() =~= n.approvals.dom().remove(account_id@));
        }
        Ok(())
    }

    /// `caller` revokes every approval of `token_id`; this succeeds on a token without any.
    /// A refusal changes nothing.
    pub fn revoke_all(&mut self, caller: &str, token_id: &str) -> (r: Result<(), ApprovalError>)
        requires
            old(self).wf(),
        ensures
            final(self).wf(),
            final(self).spec_contract_id() == old(self).spec_contract_id(),
            final(self).spec_config() == old(self).spec_config(),
            match old(self)@.revoke_all_error(caller@, token_id@) {
                Some(e) => r == Err::<(), ApprovalError>(e) && final(self)@ == old(self)@,
                None => r is Ok && final(self)@ == old(self)@.revoke_all(token_id@),
            },
    {
        let token = token_id.to_owned();
        self.check_owner(caller, &token)?;
        let ghost before = self@;
        self.store.clear_all(&token);
        proof {
            assert(self@.owners == before.owners);
            assert(self@.tokens == before.revoke_all(token_id@).tokens);
            assert forall|t: Seq<char>| #[trigger] self@.tokens.contains_key(t) implies
                self@.tokens[t].approvals.len() <= self.config.max_approvals by {
                if t == token_id@ {
                    assert(self@.tokens[t].approvals =~= Map::<Seq<char>, u64>::empty());
                } else {
                    assert(before.tokens.contains_key(t));
                }
            }
        }
        Ok(())
    }

    /// Hands `token_id` to `new_owner` and clears its approvals, whose counter stays: the
    /// step that a transfer takes. `TokenNotFound`, and nothing changed, where the token
    /// does not exist.
    pub fn transfer_ownership(&mut self, token_id: &str, new_owner: &str) -> (r: Result<(), ApprovalError>)
        requires
            old(self).wf(),
        ensures
            final(self).wf(),
            final(self).spec_contract_id() == old(self).spec_contract_id(),
            final(self).spec_config() == old(self).spec_config(),
            !old(self)@.owners.contains_key(token_id@) ==> r == Err::<(), ApprovalError>(ApprovalError::TokenNotFound)
                && final(self)@ == old(self)@,
            old(self)@.owners.contains_key(token_id@) ==> r is Ok
                && final(self)@ == old(self)@.transfer(token_id@, new_owner@),
    {
        let token = token_id.to_owned();
        if !self.owners.contains(&token) {
            return Err(ApprovalError::TokenNotFound);
        }
        let ghost before = self@;
        self.store.clear_all(&token);
        self.owners.insert(token, new_owner.to_owned());
        proof {
            assert(self@.owners =~= before.transfer(token_id@, new_owner@).owners);
        }
        Ok(())
    }

    /// The callback of an approval that carried a message, run once the receiver's call
    /// settled. Only the contract itself may invoke it. It forwards the receiver's value as
    /// the approval call's result, or `ReceiverCallFailed`, and leaves the approvals as they
    /// are: the approval was recorded before the call and stays.
    pub fn resolve_approve(&self, caller: &str, outcome: ReceiverOutcome) -> (r: Result<String, ApprovalError>)
        ensures
            caller@ != self.spec_contract_id() ==> r == Err::<String, ApprovalError>(ApprovalError::UnauthorizedCallback),
            caller@ == self.spec_contract_id() ==> result_view(r) == settled(outcome),
    {
        resolve(&self.contract_id, caller, outcome)
    }
}

} // verus!
