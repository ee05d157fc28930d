use crate::account::AccountId;
use crate::assoc::{lookup, AssocMap};
use crate::errors::TokenError;
use vstd::prelude::*;

verus! {

/// Per-account monotonically increasing counters that make each permit
/// signature single-use.
pub struct NonceRegistry {
    pub table: AssocMap<AccountId, u64>,
}

/// What `consume` returns, as a function of the state it starts from.
pub open spec fn consume_outcome(pre: NonceRegistry, id: Seq<u8>, expected: u64) -> Result<
    (),
    TokenError,
> {
    if expected != pre.nonce_of(id) {
        Err(TokenError::InvalidNonce)
    } else if expected == u64::MAX {
        Err(TokenError::ArithmeticOverflow)
    } else {
        Ok(())
    }
}

impl NonceRegistry {
    pub open spec fn wf(&self) -> bool {
        self.table.wf()
    }

    /// The current nonce of an account; zero for one never seen.
    pub open spec fn nonce_of(&self, id: Seq<u8>) -> u64 {
        match lookup(self.table.entries@, id) {
            Some(n) => n,
            None => 0,
        }
    }

    pub fn new() -> (r: NonceRegistry)
        ensures
            r.wf(),
            forall|id: Seq<u8>| #[trigger] r.nonce_of(id) == 0,
    {
        NonceRegistry { table: AssocMap::new() }
    }

    /// The nonce the account's next permit must carry.
    pub fn current(&self, account: &AccountId) -> (n: u64)
        ensures
            n == self.nonce_of(account@),
    {
        match self.table.get(account) {
            Some(n) => *n,
            None => 0,
        }
    }

    /// Consumes `expected` for the account: succeeds and increments by
    /// exactly one iff `expected` is the account's current nonce (and the
    /// counter has room); any failure leaves the registry untouched.
    pub fn consume(&mut self, account: &AccountId, expected: u64) -> (res: Result<(), TokenError>)
        requires
            old(self).wf(),
        ensures
            final(self).wf(),
            res == consume_outcome(*old(self), account@, expected),
            res is Ok ==> final(self).nonce_of(account@) == expected + 1,
            res is Err ==> *final(self) == *old(self),
            forall|id: Seq<u8>|
                id != account@ ==> #[trigger] final(self).nonce_of(id) == old(self).nonce_of(id),
    {
        let current = self.current(account);
        if expected != current {
            return Err(TokenError::InvalidNonce);
        }
        let next = match crate::guard::guarded_add_u64(expected, 1) {
            Ok(n) => n,
            Err(e) => {
                return Err(e);
            },
        };
        self.table.set(*account, next);
        Ok(())
    }
}

/// Law: a nonce, once consumed, cannot be consumed again -- replaying the
/// same counter value against the advanced registry fails with
/// `InvalidNonce`.
pub proof fn law_nonce_replay(pre: NonceRegistry, post: NonceRegistry, id: Seq<u8>, n: u64)
    requires
        consume_outcome(pre, id, n) is Ok,
        post.nonce_of(id) == n + 1,
    ensures
        consume_outcome(post, id, n) == Err::<(), TokenError>(TokenError::InvalidNonce),
{
}

} // verus!
