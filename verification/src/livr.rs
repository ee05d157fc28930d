use crate::account::{anonymous_id, AccountId};
use crate::assoc::{lookup, AssocMap, TableKey};
use vstd::prelude::*;

verus! {

/// A missing entry counts as a zero balance.
pub open spec fn or_zero_u64(o: Option<u64>) -> u64 {
    match o {
        Some(v) => v,
        None => 0,
    }
}

/// The sum of all recorded balances of the host-facing token.
pub open spec fn sum_u64<K>(s: Seq<(K, u64)>) -> int
    decreases s.len(),
{
    if s.len() == 0 {
        0
    } else {
        sum_u64(s.drop_last()) + s.last().1
    }
}

pub proof fn lemma_sum_u64_nonneg<K>(s: Seq<(K, u64)>)
    ensures
        sum_u64(s) >= 0,
    decreases s.len(),
{
    if s.len() > 0 {
        lemma_sum_u64_nonneg(s.drop_last());
    }
}

proof fn lemma_sum_u64_update<K>(s: Seq<(K, u64)>, i: int, e: (K, u64))
    requires
        0 <= i < s.len(),
    ensures
        sum_u64(s.update(i, e)) == sum_u64(s) - s[i].1 + e.1,
    decreases s.len(),
{
    let t = s.update(i, e);
    if i == s.len() - 1 {
        assert(t.drop_last() =~= s.drop_last());
    } else {
        assert(t.drop_last() =~= s.drop_last().update(i, e));
        assert(t.last() == s.last());
        lemma_sum_u64_update(s.drop_last(), i, e);
    }
}

proof fn lemma_sum_u64_push<K>(s: Seq<(K, u64)>, e: (K, u64))
    ensures
        sum_u64(s.push(e)) == sum_u64(s) + e.1,
{
    assert(s.push(e).drop_last() =~= s);
    assert(s.push(e).last() == e);
}

/// Any single recorded balance is at most the sum of all of them.
proof fn lemma_lookup_le_sum_u64<K: TableKey>(s: Seq<(K, u64)>, id: Seq<u8>)
    ensures
        match lookup(s, id) {
            Some(b) => b <= sum_u64(s),
            None => true,
        },
    decreases s.len(),
{
    if s.len() > 0 {
        lemma_sum_u64_nonneg(s.drop_last());
        lemma_lookup_le_sum_u64(s.drop_last(), id);
    }
}

/// How one `AssocMap::set` moves the sum of balances.
proof fn lemma_set_sum_u64<K: TableKey>(s0: Seq<(K, u64)>, s1: Seq<(K, u64)>, key: K, value: u64)
    requires
        (exists|i: int|
            0 <= i < s0.len() && (#[trigger] s0[i]).0.key_id() == key.key_id() && lookup(
                s0,
                key.key_id(),
            ) == Some(s0[i].1) && s1 == s0.update(i, (key, value))) || (lookup(
            s0,
            key.key_id(),
        ) is None && s1 == s0.push((key, value))),
    ensures
        sum_u64(s1) == sum_u64(s0) - or_zero_u64(lookup(s0, key.key_id())) + value,
{
    if lookup(s0, key.key_id()) is None {
        lemma_sum_u64_push(s0, (key, value));
    } else {
        let i = choose|i: int|
            0 <= i < s0.len() && (#[trigger] s0[i]).0.key_id() == key.key_id() && lookup(
                s0,
                key.key_id(),
            ) == Some(s0[i].1) && s1 == s0.update(i, (key, value));
        lemma_sum_u64_update(s0, i, (key, value));
    }
}

/// The host-facing token's persistent state.
pub struct Token {
    pub name: String,
    pub symbol: String,
    pub total_supply: u64,
    pub balances: AssocMap<AccountId, u64>,
    pub owner: AccountId,
}

impl Token {
    /// The balance of an account; zero for one never seen.
    pub open spec fn bal_of(&self, id: Seq<u8>) -> u64 {
        or_zero_u64(lookup(self.balances.entries@, id))
    }

    pub open spec fn wf(&self) -> bool {
        &&& self.balances.wf()
        &&& sum_u64(self.balances.entries@) == self.total_supply
    }
}

/// The in-memory slot the host's persistence layer loads the token into
/// before a call and saves from afterwards.
pub struct TokenStore {
    pub token: Token,
}

/// A store holding a blank, unowned token.
pub fn new_store() -> (s: TokenStore)
    ensures
        s.token.wf(),
        s.token.total_supply == 0,
        s.token.owner@ == anonymous_id(),
        forall|id: Seq<u8>| #[trigger] s.token.bal_of(id) == 0,
{
    let token = Token {
        name: String::new(),
        symbol: String::new(),
        total_supply: 0,
        balances: AssocMap::new(),
        owner: AccountId::anonymous(),
    };
    let s = TokenStore { token };
    proof {
        assert forall|id: Seq<u8>| #[trigger] s.token.bal_of(id) == 0 by {
            assert(lookup(s.token.balances.entries@, id) is None);
        }
    }
    s
}

/// Retrieves the token state held by the store.
pub fn get_token(store: &TokenStore) -> (t: &Token)
    ensures
        *t == store.token,
{
    &store.token
}

/// Saves an updated token state into the store.
pub fn save_token(store: &mut TokenStore, token: Token)
    ensures
        final(store).token == token,
{
    store.token = token;
}

/// Why a mint is refused, if it is.
pub open spec fn mint_refusal(t: Token, caller: Seq<u8>, amount: u64) -> Option<Seq<char>> {
    if caller != t.owner@ {
        Some("Only the owner can mint tokens."@)
    } else if amount == 0 {
        Some("Amount must be more than zero."@)
    } else if t.total_supply + amount > u64::MAX {
        Some("Amount overflows the total supply."@)
    } else {
        None
    }
}

/// Mints `amount` to `to`; only the token's owner may, the amount must be
/// positive, and the supply may not wrap. A refusal changes nothing.
pub fn mint(store: &mut TokenStore, caller: &AccountId, to: &AccountId, amount: u64) -> (res:
    Result<(), String>)
    requires
        old(store).token.wf(),
    ensures
        final(store).token.wf(),
        res is Ok <==> mint_refusal(old(store).token, caller@, amount) is None,
        res matches Err(m) ==> mint_refusal(old(store).token, caller@, amount) == Some(m@)
            && *final(store) == *old(store),
        res is Ok ==> final(store).token.total_supply == old(store).token.total_supply + amount,
        res is Ok ==> final(store).token.bal_of(to@) == old(store).token.bal_of(to@) + amount,
        res is Ok ==> forall|id: Seq<u8>|
            id != to@ ==> #[trigger] final(store).token.bal_of(id) == old(store).token.bal_of(id),
        final(store).token.name == old(store).token.name,
        final(store).token.symbol == old(store).token.symbol,
        final(store).token.owner == old(store).token.owner,
{
    if !caller.same(&store.token.owner) {
        return Err(("Only the owner can mint tokens.").to_owned());
    }
    if amount == 0 {
        return Err(("Amount must be more than zero.").to_owned());
    }
    let new_total = match crate::guard::guarded_add_u64(store.token.total_supply, amount) {
        Ok(t) => t,
        Err(_) => {
            return Err(("Amount overflows the total supply.").to_owned());
        },
    };
    let bal = match store.token.balances.get(to) {
        Some(b) => *b,
        None => 0,
    };
    proof {
        lemma_lookup_le_sum_u64(store.token.balances.entries@, to@);
    }
    let ghost s0 = store.token.balances.entries@;
    store.token.balances.set(*to, bal + amount);
    proof {
        lemma_set_sum_u64(s0, store.token.balances.entries@, *to, (bal + amount) as u64);
    }
    store.token.total_supply = new_total;
    Ok(())
}

/// Why a burn is refused, if it is.
pub open spec fn burn_refusal(t: Token, caller: Seq<u8>, amount: u64) -> Option<Seq<char>> {
    if caller != t.owner@ {
        Some("Only the owner can burn tokens."@)
    } else if t.bal_of(caller) < amount {
        Some("Burn amount exceeds balance."@)
    } else {
        None
    }
}

/// Burns `amount` from the caller, who must be the token's owner and hold
/// at least that much. A refusal changes nothing.
pub fn burn(store: &mut TokenStore, caller: &AccountId, amount: u64) -> (res: Result<(), String>)
    requires
        old(store).token.wf(),
    ensures
        final(store).token.wf(),
        res is Ok <==> burn_refusal(old(store).token, caller@, amount) is None,
        res matches Err(m) ==> burn_refusal(old(store).token, caller@, amount) == Some(m@)
            && *final(store) == *old(store),
        res is Ok ==> final(store).token.total_supply == old(store).token.total_supply - amount,
        res is Ok ==> final(store).token.bal_of(caller@) == old(store).token.bal_of(caller@)
            - amount,
        res is Ok ==> forall|id: Seq<u8>|
            id != caller@ ==> #[trigger] final(store).token.bal_of(id) == old(
                store,
            ).token.bal_of(id),
        final(store).token.name == old(store).token.name,
        final(store).token.symbol == old(store).token.symbol,
        final(store).token.owner == old(store).token.owner,
{
    if !caller.same(&store.token.owner) {
        return Err(("Only the owner can burn tokens.").to_owned());
    }
    let bal = match store.token.balances.get(caller) {
        Some(b) => *b,
        None => 0,
    };
    let nb = match crate::guard::guarded_sub_u64(bal, amount) {
        Ok(n) => n,
        Err(_) => {
            return Err(("Burn amount exceeds balance.").to_owned());
        },
    };
    proof {
        lemma_lookup_le_sum_u64(store.token.balances.entries@, caller@);
    }
    let ghost s0 = store.token.balances.entries@;
    store.token.balances.set(*caller, nb);
    proof {
        lemma_set_sum_u64(s0, store.token.balances.entries@, *caller, (bal - amount) as u64);
    }
    store.token.total_supply = store.token.total_supply - amount;
    Ok(())
}

/// The balance of an account.
pub fn balance_of(store: &TokenStore, owner: &AccountId) -> (b: u64)
    ensures
        b == store.token.bal_of(owner@),
{
    match store.token.balances.get(owner) {
        Some(b) => *b,
        None => 0,
    }
}

/// Why an initialization is refused, if it is.
pub open spec fn initialize_refusal(to: Seq<u8>, initial_supply: u64) -> Option<Seq<char>> {
    if to == anonymous_id() {
        Some("Cannot mint to zero address."@)
    } else if initial_supply == 0 {
        Some("Initial supply must be more than zero."@)
    } else {
        None
    }
}

/// Creates the token with its fixed name and symbol, the caller as owner
/// and the whole initial supply on `to`. A refusal changes nothing.
pub fn initialize(store: &mut TokenStore, caller: &AccountId, initial_supply: u64, to: &AccountId)
    -> (res: Result<(), String>)
    ensures
        res is Ok <==> initialize_refusal(to@, initial_supply) is None,
        res matches Err(m) ==> initialize_refusal(to@, initial_supply) == Some(m@) && *final(store)
            == *old(store),
        res is Ok ==> final(store).token.wf() && final(store).token.name@ == "Streamlivr"@
            && final(store).token.symbol@ == "LIVR"@ && final(store).token.owner@ == caller@
            && final(store).token.total_supply == initial_supply && final(store).token.bal_of(to@)
            == initial_supply,
        res is Ok ==> forall|id: Seq<u8>|
            id != to@ ==> #[trigger] final(store).token.bal_of(id) == 0,
{
    let anon = AccountId::anonymous();
    if to.same(&anon) {
        return Err(("Cannot mint to zero address.").to_owned());
    }
    if initial_supply == 0 {
        return Err(("Initial supply must be more than zero.").to_owned());
    }
    let mut balances: AssocMap<AccountId, u64> = AssocMap::new();
    let ghost s0 = balances.entries@;
    balances.set(*to, initial_supply);
    proof {
        lemma_set_sum_u64(s0, balances.entries@, *to, initial_supply);
    }
    let token = Token {
        name: ("Streamlivr").to_owned(),
        symbol: ("LIVR").to_owned(),
        total_supply: initial_supply,
        balances,
        owner: *caller,
    };
    store.token = token;
    Ok(())
}

} // verus!
