use vstd::prelude::*;

use crate::approvals::{TokenApprovals, TokenView};
use crate::str_map::StrMap;

verus! {

/// The approvals of token `token` in `tokens`: those of a token never approved where it has none.
pub open spec fn token_of(tokens: Map<Seq<char>, TokenView>, token: Seq<char>) -> TokenView {
    if tokens.contains_key(token) {
        tokens[token]
    } else {
        TokenView::fresh()
    }
}

/// Every token's approvals are valid.
pub open spec fn valid_tokens(tokens: Map<Seq<char>, TokenView>) -> bool {
    forall|t: Seq<char>| #[trigger] tokens.contains_key(t) ==> tokens[t].valid()
}

/// The approvals of every token, keyed by token id. A plain container: it checks
/// neither ownership nor funds.
pub struct ApprovalStore {
    tokens: StrMap<TokenApprovals>,
}

impl View for ApprovalStore {
    type V = Map<Seq<char>, TokenView>;

    closed spec fn view(&self) -> Map<Seq<char>, TokenView> {
        self.tokens@.map_values(|t: TokenApprovals| t@)
    }
}

impl ApprovalStore {
    pub closed spec fn wf(&self) -> bool {
        &&& self.tokens.wf()
        &&& forall|t: Seq<char>| #[trigger] self.tokens@.contains_key(t) ==> self.tokens@[t].wf()
    }

    pub proof fn lemma_valid(&self)
        requires
            self.wf(),
        ensures
            valid_tokens(self@),
    {
        assert forall|t: Seq<char>| #[trigger] self@.contains_key(t) implies self@[t].valid() by {
            self.tokens@[t].lemma_valid();
        }
    }

    /// No token has approvals.
    pub fn new() -> (r: Self)
        ensures
            r.wf(),
            r@ == Map::<Seq<char>, TokenView>::empty(),
    {
        let r = ApprovalStore { tokens: StrMap::new() };
        assert(r@ =~= Map::<Seq<char>, TokenView>::empty());
        r
    }

    /// The approvals of `token`, where any were ever recorded.
    pub fn get(&self, token: &String) -> (r: Option<&TokenApprovals>)
        requires
            self.wf(),
        ensures
            match r {
                Some(t) => self@.contains_key(token@) && t.wf() && t@ == self@[token@],
                None => !self@.contains_key(token@),
            },
    {
        self.tokens.get(token)
    }

    /// The id that `account` holds for `token`, if it is approved.
    pub fn approval_id(&self, token: &String, account: &String) -> (r: Option<u64>)
        requires
            self.wf(),
        ensures
            r == (if token_of(self@, token@).approvals.contains_key(account@) {
                Some(token_of(self@, token@).approvals[account@])
            } else {
                None
            }),
    {
        match self.tokens.get(token) {
            Some(t) => t.approval_id(account),
            None => None,
        }
    }

    /// How many accounts are approved for `token`.
    pub fn approval_count(&self, token: &String) -> (n: usize)
        requires
            self.wf(),
        ensures
            n == token_of(self@, token@).approvals.len(),
    {
        match self.tokens.get(token) {
            Some(t) => t.len(),
            None => 0,
        }
    }

    /// The id that the next approval of `token` will receive.
    pub fn next_approval_id(&self, token: &String) -> (r: u64)
        requires
            self.wf(),
        ensures
            r == token_of(self@, token@).next_approval_id,
    {
        match self.tokens.get(token) {
            Some(t) => t.next_approval_id(),
            None => crate::approvals::FIRST_APPROVAL_ID,
        }
    }

    /// Puts the approvals `ta` of `token` back into the store.
    fn put(&mut self, token: &String, ta: TokenApprovals)
        requires
            old(self).wf(),
            ta.wf(),
        ensures
            final(self).wf(),
            final(self)@ == old(self)@.insert(token@, ta@),
    {
        let ghost v = ta@;
        self.tokens.insert(token.clone(), ta);
        assert(self@ =~= old(self)@.insert(token@, v));
    }

    /// Gives `account` the next id of `token`, replacing any id it held, and returns that id.
    pub fn set_approval(&mut self, token: &String, account: String) -> (id: u64)
        requires
            old(self).wf(),
            token_of(old(self)@, token@).next_approval_id < u64::MAX,
        ensures
            final(self).wf(),
            id == token_of(old(self)@, token@).next_approval_id,
            final(self)@ == old(self)@.insert(token@, token_of(old(self)@, token@).approve(account@)),
    {
        let mut ta = match self.tokens.remove(token) {
            Some(t) => t,
            None => TokenApprovals::new(),
        };
        let id = ta.set_approval(account);
        self.put(token, ta);
        proof {
            assert(self@ =~= old(self)@.insert(token@, token_of(old(self)@, token@).approve(account@)));
        }
        id
    }

    /// Removes the approval of `account` for `token`; tells whether there was one.
    pub fn remove_approval(&mut self, token: &String, account: &String) -> (removed: bool)
        requires
            old(self).wf(),
        ensures
            final(self).wf(),
            removed == token_of(old(self)@, token@).approvals.contains_key(account@),
            final(self)@ == (if removed {
                old(self)@.insert(token@, token_of(old(self)@, token@).revoke(account@))
            } else {
                old(self)@
            }),
    {
        if self.approval_id(token, account).is_none() {
            return false;
        }
        let mut ta = match self.tokens.remove(token) {
            Some(t) => t,
            None => TokenApprovals::new(),
        };
        let removed = ta.remove_approval(account);
        self.put(token, ta);
        proof {
            assert(self@ =~= old(self)@.insert(token@, token_of(old(self)@, token@).revoke(account@)));
        }
        removed
    }

    /// Removes every approval of `token`; its counter stays.
    pub fn clear_all(&mut self, token: &String)
        requires
            old(self).wf(),
        ensures
            final(self).wf(),
            final(self)@ == (if old(self)@.contains_key(token@) {
                old(self)@.insert(token@, old(self)@[token@].revoke_all())
            } else {
                old(self)@
            }),
    {
        match self.tokens.remove(token) {
            Some(ta) => {
                let mut ta = ta;
                ta.clear_all();
                self.put(token, ta);
                proof {
                    assert(self@ =~= old(self)@.insert(token@, old(self)@[token@].revoke_all()));
                }
            }
            None => {
                proof {
                    assert(self@ =~= old(self)@);
                }
            }
        }
    }
}

} // verus!
