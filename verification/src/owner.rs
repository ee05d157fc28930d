use crate::account::{anonymous_id, hex_of, AccountId};
use vstd::prelude::*;
use vstd::string::StringExecFns;

verus! {

/// The message naming an account that is not the owner.
pub open spec fn unauthorized_msg(account: Seq<u8>) -> Seq<char> {
    "Unauthorized account: 0x"@ + hex_of(account)
}

/// The message naming a rejected owner.
pub open spec fn invalid_owner_msg(owner: Seq<u8>) -> Seq<char> {
    "Invalid owner: 0x"@ + hex_of(owner)
}

/// The failure messages of the ownership component.
#[derive(Debug)]
pub struct OwnableError;

impl OwnableError {
    /// The message for a caller who is not the owner.
    pub fn unauthorized_account(account: AccountId) -> (r: String)
        ensures
            r@ == unauthorized_msg(account@),
    {
        let mut r = ("Unauthorized account: 0x").to_owned();
        let rendered = account.hex_string();
        r.append(rendered.as_str());
        r
    }

    /// The message for an owner handover to the zero identity.
    pub fn invalid_owner(owner: AccountId) -> (r: String)
        ensures
            r@ == invalid_owner_msg(owner@),
    {
        let mut r = ("Invalid owner: 0x").to_owned();
        let rendered = owner.hex_string();
        r.append(rendered.as_str());
        r
    }
}

/// The explicit ownership state: callers inject the current authority
/// instead of the component reading ambient process-wide storage.
pub struct Ownable {
    pub owner: AccountId,
}

/// A fresh, unowned state: the zero identity holds ownership.
pub fn new_ownable() -> (st: Ownable)
    ensures
        st.owner@ == anonymous_id(),
{
    Ownable { owner: AccountId::anonymous() }
}

/// Installs the first owner; the zero identity is refused.
pub fn initialize(state: &mut Ownable, initial_owner: &AccountId) -> (res: Result<(), String>)
    ensures
        initial_owner@ == anonymous_id() ==> (res matches Err(m) && m@ == invalid_owner_msg(anonymous_id()))
            && *final(state) == *old(state),
        initial_owner@ != anonymous_id() ==> res is Ok && final(state).owner@ == initial_owner@,
{
    let anon = AccountId::anonymous();
    if initial_owner.same(&anon) {
        return Err(OwnableError::invalid_owner(anon));
    }
    state.owner = *initial_owner;
    Ok(())
}

/// The current owner.
pub fn owner(state: &Ownable) -> (o: AccountId)
    ensures
        o@ == state.owner@,
{
    state.owner
}

/// Succeeds exactly for the current owner.
pub fn check_owner(state: &Ownable, caller: &AccountId) -> (res: Result<(), String>)
    ensures
        res is Ok <==> caller@ == state.owner@,
        res matches Err(m) ==> m@ == unauthorized_msg(caller@),
{
    if caller.same(&state.owner) {
        Ok(())
    } else {
        Err(OwnableError::unauthorized_account(*caller))
    }
}

/// Hands ownership to `new_owner`; only the owner may, and the zero
/// identity is refused. A refusal changes nothing.
pub fn transfer_ownership(state: &mut Ownable, caller: &AccountId, new_owner: &AccountId) -> (res:
    Result<(), String>)
    ensures
        caller@ != old(state).owner@ ==> (res matches Err(m) && m@ == unauthorized_msg(caller@))
            && *final(state) == *old(state),
        caller@ == old(state).owner@ && new_owner@ == anonymous_id() ==> (res matches Err(m) && m@
            == invalid_owner_msg(anonymous_id())) && *final(state) == *old(state),
        caller@ == old(state).owner@ && new_owner@ != anonymous_id() ==> res is Ok
            && final(state).owner@ == new_owner@,
{
    if !caller.same(&state.owner) {
        return Err(OwnableError::unauthorized_account(*caller));
    }
    let anon = AccountId::anonymous();
    if new_owner.same(&anon) {
        return Err(OwnableError::invalid_owner(anon));
    }
    state.owner = *new_owner;
    Ok(())
}

/// Renounces ownership back to the zero identity; only the owner may.
pub fn renounce_ownership(state: &mut Ownable, caller: &AccountId) -> (res: Result<(), String>)
    ensures
        caller@ != old(state).owner@ ==> (res matches Err(m) && m@ == unauthorized_msg(caller@))
            && *final(state) == *old(state),
        caller@ == old(state).owner@ ==> res is Ok && final(state).owner@ == anonymous_id(),
{
    if !caller.same(&state.owner) {
        return Err(OwnableError::unauthorized_account(*caller));
    }
    state.owner = AccountId::anonymous();
    Ok(())
}

} // verus!
