use vstd::prelude::*;

use crate::str_map::StrMap;

verus! {

/// The id that a token's first approval receives.
pub const FIRST_APPROVAL_ID: u64 = 1;

/// What one token's approvals are: each approved account to its approval id, and the
/// id that the next approval will receive.
pub struct TokenView {
    pub approvals: Map<Seq<char>, u64>,
    pub next_approval_id: u64,
}

impl TokenView {
    /// The approvals of a token that has never been approved.
    pub open spec fn fresh() -> TokenView {
        TokenView { approvals: Map::empty(), next_approval_id: FIRST_APPROVAL_ID }
    }

    /// Every id held lies below the next one, which is never below the first.
    pub open spec fn valid(self) -> bool {
        &&& self.approvals.dom().finite()
        &&& FIRST_APPROVAL_ID <= self.next_approval_id
        &&& forall|a: Seq<char>| #[trigger] self.approvals.contains_key(a)
            ==> self.approvals[a] < self.next_approval_id
    }

    /// `account` gets the next id, replacing any id it held.
    pub open spec fn approve(self, account: Seq<char>) -> TokenView {
        TokenView {
            approvals: self.approvals.insert(account, self.next_approval_id),
            next_approval_id: (self.next_approval_id + 1) as u64,
        }
    }

    /// `account` loses its approval; the counter stays.
    pub open spec fn revoke(self, account: Seq<char>) -> TokenView {
        TokenView { approvals: self.approvals.remove(account), ..self }
    }

    /// Every approval is gone; the counter stays.
    pub open spec fn revoke_all(self) -> TokenView {
        TokenView { approvals: Map::empty(), ..self }
    }
}

/// The approvals of one token: approved accounts with their ids, and the id counter.
pub struct TokenApprovals {
    approved: StrMap<u64>,
    next_approval_id: u64,
}

impl View for TokenApprovals {
    type V = TokenView;

    closed spec fn view(&self) -> TokenView {
        TokenView { approvals: self.approved@, next_approval_id: self.next_approval_id }
    }
}

impl TokenApprovals {
    pub closed spec fn wf(&self) -> bool {
        &&& self.approved.wf()
        &&& self@.valid()
    }

    pub proof fn lemma_valid(&self)
        requires
            self.wf(),
        ensures
            self@.valid(),
    {
    }

    /// No approval yet; the counter at its first value.
    pub fn new() -> (r: Self)
        ensures
            r.wf(),
            r@ == TokenView::fresh(),
    {
        let r = TokenApprovals { approved: StrMap::new(), next_approval_id: FIRST_APPROVAL_ID };
        proof {
            r.approved.lemma_finite();
        }
        r
    }

    /// The id that the next approval will receive.
    pub fn next_approval_id(&self) -> (r: u64)
        ensures
            r == self@.next_approval_id,
    {
        self.next_approval_id
    }

    /// How many accounts are approved.
    pub fn len(&self) -> (n: usize)
        requires
            self.wf(),
        ensures
            n == self@.approvals.len(),
    {
        self.approved.len()
    }

    /// The id that `account` holds, if it is approved.
    pub fn approval_id(&self, account: &String) -> (r: Option<u64>)
        requires
            self.wf(),
        ensures
            r == (if self@.approvals.contains_key(account@) {
                Some(self@.approvals[account@])
            } else {
                None
            }),
    {
        match self.approved.get(account) {
            Some(id) => Some(*id),
            None => None,
        }
    }

    /// Gives `account` the next id, replacing any id it held, and returns that id.
    pub fn set_approval(&mut self, account: String) -> (id: u64)
        requires
            old(self).wf(),
            old(self)@.next_approval_id < u64::MAX,
        ensures
            final(self).wf(),
            id == old(self)@.next_approval_id,
            final(self)@ == old(self)@.approve(account@),
    {
        let id = self.next_approval_id;
        self.approved.insert(account, id);
        self.next_approval_id = id + 1;
        proof {
            self.approved.lemma_finite();
        }
        id
    }

    /// Removes the approval of `account`; tells whether there was one.
    pub fn remove_approval(&mut self, account: &String) -> (removed: bool)
        requires
            old(self).wf(),
        ensures
            final(self).wf(),
            removed == old(self)@.approvals.contains_key(account@),
            final(self)@ == old(self)@.revoke(account@),
    {
        let r = self.approved.remove(account);
        proof {
            self.approved.lemma_finite();
        }
        r.is_some()
    }

    /// Removes every approval; the counter stays.
    pub fn clear_all(&mut self)
        requires
            old(self).wf(),
        ensures
            final(self).wf(),
            final(self)@ == old(self)@.revoke_all(),
    {
        self.approved.clear();
        proof {
            self.approved.lemma_finite();
        }
    }
}

} // verus!
