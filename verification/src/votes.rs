use crate::account::AccountId;
use crate::assoc::{lookup, AssocMap, TableKey};
use crate::checkpoints::{
    append_next, append_outcome, latest_spec, law_power_at_covers_latest, marker_ok_spec,
    markers_increasing, power_at_spec, Checkpoint, CheckpointLedger,
};
use crate::errors::TokenError;
use vstd::prelude::*;

verus! {

/// An (owner, spender) allowance key.
#[derive(Clone, Copy, Debug)]
pub struct AccountPair {
    pub owner: AccountId,
    pub spender: AccountId,
}

/// Two 20-byte identities concatenate injectively.
pub proof fn lemma_pair_id_injective(a: Seq<u8>, b: Seq<u8>, c: Seq<u8>, d: Seq<u8>)
    requires
        a.len() == 20,
        b.len() == 20,
        c.len() == 20,
        d.len() == 20,
    ensures
        (a + b == c + d) <==> (a == c && b == d),
{
    if a + b == c + d {
        assert(a =~= (a + b).subrange(0, 20));
        assert(c =~= (c + d).subrange(0, 20));
        assert(b =~= (a + b).subrange(20, 40));
        assert(d =~= (c + d).subrange(20, 40));
    }
    if a == c && b == d {
        assert(a + b =~= c + d);
    }
}

impl TableKey for AccountPair {
    open spec fn key_id(&self) -> Seq<u8> {
        self.owner@ + self.spender@
    }

    fn key_eq(&self, other: &Self) -> (r: bool) {
        proof {
            lemma_pair_id_injective(self.owner@, self.spender@, other.owner@, other.spender@);
        }
        self.owner.same(&other.owner) && self.spender.same(&other.spender)
    }
}

/// The sum of all recorded balances.
pub open spec fn sum_of<K>(s: Seq<(K, u128)>) -> int
    decreases s.len(),
{
    if s.len() == 0 {
        0
    } else {
        sum_of(s.drop_last()) + s.last().1
    }
}

pub proof fn lemma_sum_nonneg<K>(s: Seq<(K, u128)>)
    ensures
        sum_of(s) >= 0,
    decreases s.len(),
{
    if s.len() > 0 {
        lemma_sum_nonneg(s.drop_last());
    }
}

proof fn lemma_sum_update<K>(s: Seq<(K, u128)>, i: int, e: (K, u128))
    requires
        0 <= i < s.len(),
    ensures
        sum_of(s.update(i, e)) == sum_of(s) - s[i].1 + e.1,
    decreases s.len(),
{
    let t = s.update(i, e);
    if i == s.len() - 1 {
        assert(t.drop_last() =~= s.drop_last());
    } else {
        assert(t.drop_last() =~= s.drop_last().update(i, e));
        assert(t.last() == s.last());
        lemma_sum_update(s.drop_last(), i, e);
    }
}

proof fn lemma_sum_push<K>(s: Seq<(K, u128)>, e: (K, u128))
    ensures
        sum_of(s.push(e)) == sum_of(s) + e.1,
{
    assert(s.push(e).drop_last() =~= s);
    assert(s.push(e).last() == e);
}

/// Any single recorded balance is at most the sum of all of them.
proof fn lemma_lookup_le_sum<K: TableKey>(s: Seq<(K, u128)>, id: Seq<u8>)
    ensures
        match lookup(s, id) {
            Some(b) => b <= sum_of(s),
            None => true,
        },
    decreases s.len(),
{
    if s.len() > 0 {
        lemma_sum_nonneg(s.drop_last());
        lemma_lookup_le_sum(s.drop_last(), id);
    }
}

/// A missing entry counts as a zero balance.
pub open spec fn or_zero(o: Option<u128>) -> u128 {
    match o {
        Some(v) => v,
        None => 0,
    }
}

/// How one `AssocMap::set` moves the sum of balances.
proof fn lemma_set_sum<K: TableKey>(s0: Seq<(K, u128)>, s1: Seq<(K, u128)>, key: K, value: u128)
    requires
        (exists|i: int|
            0 <= i < s0.len() && (#[trigger] s0[i]).0.key_id() == key.key_id() && lookup(
                s0,
                key.key_id(),
            ) == Some(s0[i].1) && s1 == s0.update(i, (key, value))) || (lookup(
            s0,
            key.key_id(),
        ) is None && s1 == s0.push((key, value))),
    ensures
        sum_of(s1) == sum_of(s0) - or_zero(lookup(s0, key.key_id())) + value,
{
    if lookup(s0, key.key_id()) is None {
        lemma_sum_push(s0, (key, value));
    } else {
        let i = choose|i: int|
            0 <= i < s0.len() && (#[trigger] s0[i]).0.key_id() == key.key_id() && lookup(
                s0,
                key.key_id(),
            ) == Some(s0[i].1) && s1 == s0.update(i, (key, value));
        lemma_sum_update(s0, i, (key, value));
    }
}

/// The balance ledger: balances, supply, allowances, and the checkpoint
/// ledger it feeds on every balance change.
pub struct ERC20Votes {
    pub total_supply: u128,
    pub max_supply: u128,
    pub balances: AssocMap<AccountId, u128>,
    pub allowances: AssocMap<AccountPair, u128>,
    pub checkpoints: CheckpointLedger,
}

/// What `mint` returns, as a function of the state it starts from.
pub open spec fn mint_outcome(pre: ERC20Votes, to: Seq<u8>, value: u128, marker: u64) -> Result<
    (),
    TokenError,
> {
    if pre.total_supply + value > pre.max_supply {
        Err(TokenError::SupplyCapExceeded)
    } else if !marker_ok_spec(pre.history_of(to), marker) {
        Err(TokenError::InvalidMarker)
    } else {
        Ok(())
    }
}

/// What `transfer` returns, as a function of the state it starts from.
pub open spec fn transfer_outcome(
    pre: ERC20Votes,
    from: Seq<u8>,
    to: Seq<u8>,
    value: u128,
    marker: u64,
) -> Result<(), TokenError> {
    if pre.bal_of(from) < value {
        Err(TokenError::InsufficientBalance)
    } else if !marker_ok_spec(pre.history_of(from), marker) {
        Err(TokenError::InvalidMarker)
    } else if !marker_ok_spec(pre.history_of(to), marker) {
        Err(TokenError::InvalidMarker)
    } else {
        Ok(())
    }
}

/// What `burn` returns, as a function of the state it starts from.
pub open spec fn burn_outcome(pre: ERC20Votes, from: Seq<u8>, value: u128, marker: u64) -> Result<
    (),
    TokenError,
> {
    if pre.bal_of(from) < value {
        Err(TokenError::InsufficientBalance)
    } else if !marker_ok_spec(pre.history_of(from), marker) {
        Err(TokenError::InvalidMarker)
    } else {
        Ok(())
    }
}

/// What `spend_allowance` returns, as a function of the state it starts
/// from.
pub open spec fn spend_outcome(
    pre: ERC20Votes,
    owner: Seq<u8>,
    spender: Seq<u8>,
    amount: u128,
) -> Result<(), TokenError> {
    if pre.allowance_of(owner, spender) < amount {
        Err(TokenError::InsufficientAllowance)
    } else {
        Ok(())
    }
}

impl ERC20Votes {
    /// The balance of an account; zero for one never seen.
    pub open spec fn bal_of(&self, id: Seq<u8>) -> u128 {
        or_zero(lookup(self.balances.entries@, id))
    }

    /// The remaining allowance of a spender on an owner's balance.
    pub open spec fn allowance_of(&self, owner: Seq<u8>, spender: Seq<u8>) -> u128 {
        or_zero(lookup(self.allowances.entries@, owner + spender))
    }

    /// The checkpoint history of an account.
    pub open spec fn history_of(&self, id: Seq<u8>) -> Seq<Checkpoint> {
        self.checkpoints.history_of(id)
    }

    /// Well-formedness: unique table keys, supply conservation, the supply
    /// cap, and voting power tracking balances (self-delegation).
    pub open spec fn wf(&self) -> bool {
        &&& self.balances.wf()
        &&& self.allowances.wf()
        &&& self.checkpoints.wf()
        &&& sum_of(self.balances.entries@) == self.total_supply
        &&& self.total_supply <= self.max_supply
        &&& forall|id: Seq<u8>| latest_spec(#[trigger] self.history_of(id)) == self.bal_of(id)
    }

    /// A fresh ledger bounded by `max_supply`.
    pub fn with_cap(max_supply: u128) -> (r: ERC20Votes)
        ensures
            r.wf(),
            r.total_supply == 0,
            r.max_supply == max_supply,
            forall|id: Seq<u8>| #[trigger] r.bal_of(id) == 0,
            forall|o: Seq<u8>, s: Seq<u8>| #[trigger] r.allowance_of(o, s) == 0,
            forall|id: Seq<u8>| #[trigger] r.history_of(id) == Seq::<Checkpoint>::empty(),
    {
        let r = ERC20Votes {
            total_supply: 0,
            max_supply,
            balances: AssocMap::new(),
            allowances: AssocMap::new(),
            checkpoints: CheckpointLedger::new(),
        };
        proof {
            assert forall|id: Seq<u8>| #[trigger] r.bal_of(id) == 0 by {
                assert(lookup(r.balances.entries@, id) is None);
            }
            assert forall|o: Seq<u8>, s: Seq<u8>| #[trigger] r.allowance_of(o, s) == 0 by {
                assert(lookup(r.allowances.entries@, o + s) is None);
            }
            assert forall|id: Seq<u8>| latest_spec(#[trigger] r.history_of(id)) == r.bal_of(
                id,
            ) by {
                assert(r.history_of(id) == Seq::<Checkpoint>::empty());
                assert(r.bal_of(id) == 0);
            }
        }
        r
    }

    /// A fresh ledger with an unbounded cap, as deployed by default.
    pub fn new() -> (r: ERC20Votes)
        ensures
            r.wf(),
            r.total_supply == 0,
            r.max_supply == u128::MAX,
            forall|id: Seq<u8>| #[trigger] r.bal_of(id) == 0,
            forall|o: Seq<u8>, s: Seq<u8>| #[trigger] r.allowance_of(o, s) == 0,
            forall|id: Seq<u8>| #[trigger] r.history_of(id) == Seq::<Checkpoint>::empty(),
    {
        Self::with_cap(u128::MAX)
    }

    pub fn balance_of(&self, account: &AccountId) -> (b: u128)
        ensures
            b == self.bal_of(account@),
    {
        match self.balances.get(account) {
            Some(b) => *b,
            None => 0,
        }
    }

    pub fn allowance(&self, owner: &AccountId, spender: &AccountId) -> (a: u128)
        ensures
            a == self.allowance_of(owner@, spender@),
    {
        let pair = AccountPair { owner: *owner, spender: *spender };
        match self.allowances.get(&pair) {
            Some(a) => *a,
            None => 0,
        }
    }

    /// Mints `value` to `to` and checkpoints the new power at `marker`;
    /// fails, touching nothing, if the cap would be exceeded or the marker
    /// moves backward.
    pub fn mint(&mut self, to: &AccountId, value: u128, marker: u64) -> (res: Result<
        (),
        TokenError,
    >)
        requires
            old(self).wf(),
        ensures
            final(self).wf(),
            res == mint_outcome(*old(self), to@, value, marker),
            res is Err ==> *final(self) == *old(self),
            final(self).max_supply == old(self).max_supply,
            final(self).allowances == old(self).allowances,
            res is Ok ==> final(self).total_supply == old(self).total_supply + value,
            res is Ok ==> final(self).bal_of(to@) == old(self).bal_of(to@) + value,
            res is Ok ==> forall|id: Seq<u8>|
                id != to@ ==> #[trigger] final(self).bal_of(id) == old(self).bal_of(id),
            res is Ok ==> final(self).history_of(to@) == append_next(
                old(self).history_of(to@),
                marker,
                (old(self).bal_of(to@) + value) as u128,
            ),
            res is Ok ==> forall|id: Seq<u8>|
                id != to@ ==> #[trigger] final(self).history_of(id) == old(self).history_of(id),
    {
        let new_total = match crate::guard::guarded_add(self.total_supply, value) {
            Ok(t) => t,
            Err(_) => {
                return Err(TokenError::SupplyCapExceeded);
            },
        };
        if new_total > self.max_supply {
            return Err(TokenError::SupplyCapExceeded);
        }
        if !self.checkpoints.marker_ok(to, marker) {
            return Err(TokenError::InvalidMarker);
        }
        let bal = self.balance_of(to);
        proof {
            lemma_lookup_le_sum(self.balances.entries@, to@);
        }
        let nb = bal + value;
        let r = self.checkpoints.append(to, marker, nb);
        match r {
            Err(_) => {
                proof {
                    assert(false);
                }
                Err(TokenError::InvalidMarker)
            },
            Ok(()) => {
                let ghost s0 = self.balances.entries@;
                self.balances.set(*to, nb);
                proof {
                    lemma_set_sum(s0, self.balances.entries@, *to, nb);
                }
                self.total_supply = self.total_supply + value;
                proof {
                    assert forall|id: Seq<u8>| latest_spec(#[trigger] self.history_of(id))
                        == self.bal_of(id) by {
                        if id == to@ {
                            let h1 = self.history_of(id);
                            assert(h1 == append_next(old(self).history_of(to@), marker, nb));
                            assert(h1.last() == Checkpoint { marker, votes: nb });
                        } else {
                            assert(latest_spec(old(self).history_of(id)) == old(self).bal_of(id));
                        }
                    }
                }
                Ok(())
            },
        }
    }

    /// Moves `value` from `from` to `to`, checkpointing the sender first,
    /// then the receiver; any failure touches nothing.
    pub fn transfer(&mut self, from: &AccountId, to: &AccountId, value: u128, marker: u64) -> (res:
        Result<(), TokenError>)
        requires
            old(self).wf(),
        ensures
            final(self).wf(),
            res == transfer_outcome(*old(self), from@, to@, value, marker),
            res is Err ==> *final(self) == *old(self),
            final(self).total_supply == old(self).total_supply,
            final(self).max_supply == old(self).max_supply,
            final(self).allowances == old(self).allowances,
            res is Ok && from@ != to@ ==> final(self).bal_of(from@) == old(self).bal_of(from@)
                - value && final(self).bal_of(to@) == old(self).bal_of(to@) + value,
            res is Ok && from@ == to@ ==> final(self).bal_of(from@) == old(self).bal_of(from@),
            res is Ok ==> forall|id: Seq<u8>|
                id != from@ && id != to@ ==> #[trigger] final(self).bal_of(id) == old(
                    self,
                ).bal_of(id),
            res is Ok && from@ != to@ ==> final(self).history_of(from@) == append_next(
                old(self).history_of(from@),
                marker,
                (old(self).bal_of(from@) - value) as u128,
            ) && final(self).history_of(to@) == append_next(
                old(self).history_of(to@),
                marker,
                (old(self).bal_of(to@) + value) as u128,
            ),
            res is Ok && from@ == to@ ==> final(self).history_of(from@) == append_next(
                old(self).history_of(from@),
                marker,
                old(self).bal_of(from@),
            ),
            res is Ok ==> forall|id: Seq<u8>|
                id != from@ && id != to@ ==> #[trigger] final(self).history_of(id) == old(
                    self,
                ).history_of(id),
    {
        let fb = self.balance_of(from);
        let nf = match crate::guard::guarded_sub(fb, value) {
            Ok(n) => n,
            Err(_) => {
                return Err(TokenError::InsufficientBalance);
            },
        };
        if !self.checkpoints.marker_ok(from, marker) {
            return Err(TokenError::InvalidMarker);
        }
        if !self.checkpoints.marker_ok(to, marker) {
            return Err(TokenError::InvalidMarker);
        }
        proof {
            lemma_lookup_le_sum(self.balances.entries@, from@);
        }
        let ghost s0 = self.balances.entries@;
        self.balances.set(*from, nf);
        proof {
            lemma_set_sum(s0, self.balances.entries@, *from, nf);
            lemma_lookup_le_sum(self.balances.entries@, to@);
        }
        let tb = self.balance_of(to);
        let nt = tb + value;
        let ghost s1 = self.balances.entries@;
        self.balances.set(*to, nt);
        proof {
            lemma_set_sum(s1, self.balances.entries@, *to, nt);
        }
        let sender_bal = self.balance_of(from);
        let r1 = self.checkpoints.append(from, marker, sender_bal);
        match r1 {
            Err(_) => {
                proof {
                    assert(false);
                }
                Err(TokenError::InvalidMarker)
            },
            Ok(()) => {
                let receiver_bal = self.balance_of(to);
                let r2 = self.checkpoints.append(to, marker, receiver_bal);
                match r2 {
                    Err(_) => {
                        proof {
                            assert(false);
                        }
                        Err(TokenError::InvalidMarker)
                    },
                    Ok(()) => {
                        proof {
                            if from@ == to@ {
                                let h0 = old(self).history_of(from@);
                                let h1 = append_next(h0, marker, sender_bal);
                                assert(h1.last().marker == marker);
                                assert(append_next(h1, marker, receiver_bal) =~= h1);
                            }
                            assert forall|id: Seq<u8>| latest_spec(#[trigger] self.history_of(id))
                                == self.bal_of(id) by {
                                if id == from@ || id == to@ {
                                } else {
                                    assert(latest_spec(old(self).history_of(id)) == old(
                                        self,
                                    ).bal_of(id));
                                }
                            }
                        }
                        Ok(())
                    },
                }
            },
        }
    }

    /// Burns `value` from `from` and checkpoints the reduced power; any
    /// failure touches nothing.
    pub fn burn(&mut self, from: &AccountId, value: u128, marker: u64) -> (res: Result<
        (),
        TokenError,
    >)
        requires
            old(self).wf(),
        ensures
            final(self).wf(),
            res == burn_outcome(*old(self), from@, value, marker),
            res is Err ==> *final(self) == *old(self),
            final(self).max_supply == old(self).max_supply,
            final(self).allowances == old(self).allowances,
            res is Ok ==> final(self).total_supply == old(self).total_supply - value,
            res is Ok ==> final(self).bal_of(from@) == old(self).bal_of(from@) - value,
            res is Ok ==> forall|id: Seq<u8>|
                id != from@ ==> #[trigger] final(self).bal_of(id) == old(self).bal_of(id),
            res is Ok ==> final(self).history_of(from@) == append_next(
                old(self).history_of(from@),
                marker,
                (old(self).bal_of(from@) - value) as u128,
            ),
            res is Ok ==> forall|id: Seq<u8>|
                id != from@ ==> #[trigger] final(self).history_of(id) == old(self).history_of(id),
    {
        let fb = self.balance_of(from);
        let nf = match crate::guard::guarded_sub(fb, value) {
            Ok(n) => n,
            Err(_) => {
                return Err(TokenError::InsufficientBalance);
            },
        };
        if !self.checkpoints.marker_ok(from, marker) {
            return Err(TokenError::InvalidMarker);
        }
        proof {
            lemma_lookup_le_sum(self.balances.entries@, from@);
            lemma_sum_nonneg(self.balances.entries@);
        }
        let r = self.checkpoints.append(from, marker, nf);
        match r {
            Err(_) => {
                proof {
                    assert(false);
                }
                Err(TokenError::InvalidMarker)
            },
            Ok(()) => {
                let ghost s0 = self.balances.entries@;
                self.balances.set(*from, nf);
                proof {
                    lemma_set_sum(s0, self.balances.entries@, *from, nf);
                }
                self.total_supply = self.total_supply - value;
                proof {
                    assert forall|id: Seq<u8>| latest_spec(#[trigger] self.history_of(id))
                        == self.bal_of(id) by {
                        if id == from@ {
                            let h1 = self.history_of(id);
                            assert(h1.last() == Checkpoint { marker, votes: nf });
                        } else {
                            assert(latest_spec(old(self).history_of(id)) == old(self).bal_of(id));
                        }
                    }
                }
                Ok(())
            },
        }
    }

    /// Unconditionally overwrites the allowance entry. This is the
    /// privileged path the permit authorizer calls after verification; it
    /// does not re-check a signature.
    pub fn approve(&mut self, owner: &AccountId, spender: &AccountId, value: u128)
        requires
            old(self).wf(),
        ensures
            final(self).wf(),
            final(self).allowance_of(owner@, spender@) == value,
            forall|o: Seq<u8>, s: Seq<u8>|
                !(o == owner@ && s == spender@) && o.len() == 20 && s.len() == 20
                    ==> #[trigger] final(self).allowance_of(o, s) == old(self).allowance_of(o, s),
            final(self).balances == old(self).balances,
            final(self).checkpoints == old(self).checkpoints,
            final(self).total_supply == old(self).total_supply,
            final(self).max_supply == old(self).max_supply,
    {
        let pair = AccountPair { owner: *owner, spender: *spender };
        self.allowances.set(pair, value);
        proof {
            assert forall|o: Seq<u8>, s: Seq<u8>|
                !(o == owner@ && s == spender@) && o.len() == 20 && s.len()
                    == 20 implies #[trigger] self.allowance_of(o, s) == old(self).allowance_of(
                o,
                s,
            ) by {
                lemma_pair_id_injective(o, s, owner@, spender@);
                assert(o + s != owner@ + spender@);
            }
            assert forall|id: Seq<u8>| latest_spec(#[trigger] self.history_of(id)) == self.bal_of(
                id,
            ) by {
                assert(latest_spec(old(self).history_of(id)) == old(self).bal_of(id));
            }
        }
    }

    /// Decrements the allowance; asking for more than remains fails with
    /// `InsufficientAllowance` and touches nothing.
    pub fn spend_allowance(&mut self, owner: &AccountId, spender: &AccountId, amount: u128) -> (res:
        Result<(), TokenError>)
        requires
            old(self).wf(),
        ensures
            final(self).wf(),
            res == spend_outcome(*old(self), owner@, spender@, amount),
            res is Err ==> *final(self) == *old(self),
            res is Ok ==> final(self).allowance_of(owner@, spender@) == old(self).allowance_of(
                owner@,
                spender@,
            ) - amount,
            forall|o: Seq<u8>, s: Seq<u8>|
                !(o == owner@ && s == spender@) && o.len() == 20 && s.len() == 20
                    ==> #[trigger] final(self).allowance_of(o, s) == old(self).allowance_of(o, s),
            final(self).balances == old(self).balances,
            final(self).checkpoints == old(self).checkpoints,
            final(self).total_supply == old(self).total_supply,
            final(self).max_supply == old(self).max_supply,
    {
        let current = self.allowance(owner, spender);
        if current < amount {
            return Err(TokenError::InsufficientAllowance);
        }
        let pair = AccountPair { owner: *owner, spender: *spender };
        self.allowances.set(pair, current - amount);
        proof {
            assert forall|o: Seq<u8>, s: Seq<u8>|
                !(o == owner@ && s == spender@) && o.len() == 20 && s.len()
                    == 20 implies #[trigger] self.allowance_of(o, s) == old(self).allowance_of(
                o,
                s,
            ) by {
                lemma_pair_id_injective(o, s, owner@, spender@);
                assert(o + s != owner@ + spender@);
            }
            assert forall|id: Seq<u8>| latest_spec(#[trigger] self.history_of(id)) == self.bal_of(
                id,
            ) by {
                assert(latest_spec(old(self).history_of(id)) == old(self).bal_of(id));
            }
        }
        Ok(())
    }

    /// The current voting power of an account: its balance, by the
    /// self-delegation model.
    pub fn get_votes(&self, account: &AccountId) -> (p: u128)
        ensures
            p == self.bal_of(account@),
    {
        self.balance_of(account)
    }

    /// The current voting power as the checkpoint ledger records it.
    pub fn voting_power_now(&self, account: &AccountId) -> (p: u128)
        ensures
            p == latest_spec(self.history_of(account@)),
    {
        self.checkpoints.latest(account)
    }

    /// The voting power of an account as of `marker`, by binary search.
    pub fn voting_power_at(&self, account: &AccountId, marker: u64) -> (p: u128)
        requires
            self.wf(),
        ensures
            p == power_at_spec(self.history_of(account@), marker),
    {
        self.checkpoints.power_at(account, marker)
    }

    pub fn num_checkpoints(&self, account: &AccountId) -> (n: usize)
        ensures
            n == self.history_of(account@).len(),
    {
        self.checkpoints.count(account)
    }

    pub fn checkpoints(&self, account: &AccountId, pos: usize) -> (c: Option<Checkpoint>)
        ensures
            pos < self.history_of(account@).len() ==> c == Some(
                self.history_of(account@)[pos as int],
            ),
            pos >= self.history_of(account@).len() ==> c is None,
    {
        self.checkpoints.at(account, pos)
    }

    /// Re-records an account's current balance at `marker`.
    pub fn update_checkpoints(&mut self, account: &AccountId, marker: u64) -> (res: Result<
        (),
        TokenError,
    >)
        requires
            old(self).wf(),
        ensures
            final(self).wf(),
            res == append_outcome(old(self).history_of(account@), marker),
            res is Err ==> *final(self) == *old(self),
            res is Ok ==> final(self).history_of(account@) == append_next(
                old(self).history_of(account@),
                marker,
                old(self).bal_of(account@),
            ),
            res is Ok ==> forall|id: Seq<u8>|
                id != account@ ==> #[trigger] final(self).history_of(id) == old(self).history_of(
                    id,
                ),
            final(self).balances == old(self).balances,
            final(self).allowances == old(self).allowances,
            final(self).total_supply == old(self).total_supply,
            final(self).max_supply == old(self).max_supply,
    {
        let bal = self.balance_of(account);
        let r = self.checkpoints.append(account, marker, bal);
        match r {
            Err(e) => Err(e),
            Ok(()) => {
                proof {
                    assert forall|id: Seq<u8>| latest_spec(#[trigger] self.history_of(id))
                        == self.bal_of(id) by {
                        if id == account@ {
                            let h1 = self.history_of(id);
                            assert(h1.last() == Checkpoint { marker, votes: bal });
                        } else {
                            assert(latest_spec(old(self).history_of(id)) == old(self).bal_of(id));
                        }
                    }
                }
                Ok(())
            },
        }
    }
}

/// Law: every well-formed state conserves supply -- the balances sum to
/// the total supply, which never exceeds the maximum supply.
pub proof fn law_supply_conservation(v: ERC20Votes)
    requires
        v.wf(),
    ensures
        sum_of(v.balances.entries@) == v.total_supply,
        v.total_supply <= v.max_supply,
{
}

/// Law: the latest checkpointed power of every account equals its balance
/// (the self-delegation model).
pub proof fn law_votes_track_balances(v: ERC20Votes, id: Seq<u8>)
    requires
        v.wf(),
    ensures
        latest_spec(v.history_of(id)) == v.bal_of(id),
{
}

/// Law: a historical query at or after an account's last recorded marker
/// returns its current balance.
pub proof fn law_power_at_now(v: ERC20Votes, id: Seq<u8>, m: u64)
    requires
        v.wf(),
        marker_ok_spec(v.history_of(id), m),
    ensures
        power_at_spec(v.history_of(id), m) == v.bal_of(id),
{
    assert(markers_increasing(v.history_of(id)));
    law_power_at_covers_latest(v.history_of(id), m);
}

} // verus!
