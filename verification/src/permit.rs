use crate::account::AccountId;
use crate::checkpoints::Checkpoint;
use crate::eip712::{permit_struct_hash, typed_digest, DomainHasher};
use crate::errors::TokenError;
use crate::nonces::NonceRegistry;
use crate::votes::ERC20Votes;
use vstd::prelude::*;
use vstd::string::StrSliceExecFns;

verus! {

/// What ECDSA public-key recovery yields for a digest and signature
/// components: the signer's 20-byte identity, or nothing for components
/// that name no key. A function of its arguments alone.
pub uninterp spec fn recover_of(digest: Seq<u8>, v: u8, r: Seq<u8>, s: Seq<u8>) -> Option<Seq<u8>>;

/// Relies on ethers_core::types::Signature::recover on a 32-byte digest:
/// ECDSA recovery of the signing address, deterministic in the digest and
/// the (v, r, s) components; `Err` exactly when they name no key.
#[verifier::external_body]
fn ecdsa_recover(digest: &Vec<u8>, v: u8, r: &[u8; 32], s: &[u8; 32]) -> (res: Option<[u8; 20]>)
    requires
        digest@.len() == 32,
    ensures
        match res {
            Some(a) => recover_of(digest@, v, r@, s@) == Some(a@),
            None => recover_of(digest@, v, r@, s@) is None,
        },
{
    let sig = ethers_core::types::Signature {
        r: ethers_core::types::U256::from_big_endian(r),
        s: ethers_core::types::U256::from_big_endian(s),
        v: v as u64,
    };
    let hash = ethers_core::types::H256::from_slice(digest.as_slice());
    match sig.recover(ethers_core::types::RecoveryMessage::Hash(hash)) {
        Ok(addr) => Some(addr.0),
        Err(_) => None,
    }
}

/// The identity a recovered address stands for, if recovery succeeded.
pub open spec fn recovered_id(o: Option<AccountId>) -> Option<Seq<u8>> {
    match o {
        Some(a) => Some(a@),
        None => None,
    }
}

/// The token with signature-authorized approvals: the balance ledger, the
/// domain hasher and the nonce registry behind the permit protocol.
pub struct ERC20Permit {
    pub token: ERC20Votes,
    pub eip712: DomainHasher,
    pub nonces: NonceRegistry,
}

/// What the post-recovery steps of `permit` return: signature validity,
/// signer identity, then nonce consumption.
pub open spec fn apply_outcome(pre: ERC20Permit, owner: Seq<u8>, recovered: Option<Seq<u8>>) -> Result<
    (),
    TokenError,
> {
    match recovered {
        None => Err(TokenError::InvalidSignature),
        Some(a) => if a != owner {
            Err(TokenError::InvalidSigner)
        } else if pre.nonces.nonce_of(owner) == u64::MAX {
            Err(TokenError::ArithmeticOverflow)
        } else {
            Ok(())
        },
    }
}

/// What `permit` returns, as a function of the state it starts from: the
/// deadline is checked first, then the signer recovered from the digest
/// bound to the owner's current nonce.
pub open spec fn permit_outcome(
    pre: ERC20Permit,
    owner: Seq<u8>,
    spender: Seq<u8>,
    value: u128,
    deadline: u64,
    now: u64,
    v: u8,
    r: Seq<u8>,
    s: Seq<u8>,
) -> Result<(), TokenError> {
    if now > deadline {
        Err(TokenError::ExpiredSignature)
    } else {
        apply_outcome(
            pre,
            owner,
            recover_of(
                pre.permit_digest_of(owner, spender, value, pre.nonces.nonce_of(owner), deadline),
                v,
                r,
                s,
            ),
        )
    }
}

impl ERC20Permit {
    pub open spec fn wf(&self) -> bool {
        &&& self.token.wf()
        &&& self.eip712.wf()
        &&& self.nonces.wf()
    }

    /// The digest a signer must have signed for this payload under this
    /// deployment's domain.
    pub open spec fn permit_digest_of(
        &self,
        owner: Seq<u8>,
        spender: Seq<u8>,
        value: u128,
        nonce: u64,
        deadline: u64,
    ) -> Seq<u8> {
        typed_digest(
            self.eip712.domain_sep@,
            permit_struct_hash(owner, spender, value, nonce, deadline),
        )
    }

    /// A fresh deployment named `name`, with version "1" and the given
    /// execution-context identity in its domain.
    pub fn new(name: String, chain_id: u64) -> (r: ERC20Permit)
        ensures
            r.wf(),
            r.eip712.name@ == vstd::utf8::encode_utf8(name@),
            r.eip712.chain_id == chain_id,
            r.token.total_supply == 0,
            r.token.max_supply == u128::MAX,
            forall|id: Seq<u8>| #[trigger] r.token.bal_of(id) == 0,
            forall|o: Seq<u8>, s: Seq<u8>| #[trigger] r.token.allowance_of(o, s) == 0,
            forall|id: Seq<u8>| #[trigger] r.token.history_of(id) == Seq::<Checkpoint>::empty(),
            forall|id: Seq<u8>| #[trigger] r.nonces.nonce_of(id) == 0,
    {
        let name_bytes = name.as_str().as_bytes_vec();
        ERC20Permit {
            token: ERC20Votes::new(),
            eip712: DomainHasher::new(&name_bytes, chain_id),
            nonces: NonceRegistry::new(),
        }
    }

    /// The post-recovery half of `permit`: rejects a failed recovery, a
    /// signer other than the stated owner, then consumes the owner's
    /// current nonce and records the allowance. Exact in the recovered
    /// identity, so it can be checked on given values.
    pub fn apply_permit(
        &mut self,
        owner: &AccountId,
        spender: &AccountId,
        value: u128,
        recovered: Option<AccountId>,
    ) -> (res: Result<(), TokenError>)
        requires
            old(self).wf(),
        ensures
            final(self).wf(),
            res == apply_outcome(*old(self), owner@, recovered_id(recovered)),
            res is Err ==> *final(self) == *old(self),
            res is Ok ==> final(self).nonces.nonce_of(owner@) == old(self).nonces.nonce_of(owner@)
                + 1,
            res is Ok ==> forall|id: Seq<u8>|
                id != owner@ ==> #[trigger] final(self).nonces.nonce_of(id) == old(
                    self,
                ).nonces.nonce_of(id),
            res is Ok ==> final(self).token.allowance_of(owner@, spender@) == value,
            res is Ok ==> forall|o: Seq<u8>, s: Seq<u8>|
                !(o == owner@ && s == spender@) && o.len() == 20 && s.len() == 20
                    ==> #[trigger] final(self).token.allowance_of(o, s) == old(
                    self,
                ).token.allowance_of(o, s),
            final(self).token.balances == old(self).token.balances,
            final(self).token.checkpoints == old(self).token.checkpoints,
            final(self).token.total_supply == old(self).token.total_supply,
            final(self).token.max_supply == old(self).token.max_supply,
            final(self).eip712 == old(self).eip712,
    {
        match recovered {
            None => Err(TokenError::InvalidSignature),
            Some(signer) => {
                if !signer.same(owner) {
                    return Err(TokenError::InvalidSigner);
                }
                let expected = self.nonces.current(owner);
                let consumed = self.nonces.consume(owner, expected);
                match consumed {
                    Err(e) => {
                        proof {
                            assert(e == TokenError::ArithmeticOverflow);
                        }
                        Err(e)
                    },
                    Ok(()) => {
                        self.token.approve(owner, spender, value);
                        Ok(())
                    },
                }
            },
        }
    }

    /// Validates a signed permit and, on success, records the allowance:
    /// deadline first (a submission at the deadline is in time), then
    /// recovery of the signer from the digest bound to the owner's current
    /// nonce, then identity, then the nonce. No failure leaves any effect.
    pub fn permit(
        &mut self,
        owner: &AccountId,
        spender: &AccountId,
        value: u128,
        deadline: u64,
        now: u64,
        v: u8,
        r: [u8; 32],
        s: [u8; 32],
    ) -> (res: Result<(), TokenError>)
        requires
            old(self).wf(),
        ensures
            final(self).wf(),
            res == permit_outcome(*old(self), owner@, spender@, value, deadline, now, v, r@, s@),
            res is Err ==> *final(self) == *old(self),
            res is Ok ==> final(self).nonces.nonce_of(owner@) == old(self).nonces.nonce_of(owner@)
                + 1,
            res is Ok ==> forall|id: Seq<u8>|
                id != owner@ ==> #[trigger] final(self).nonces.nonce_of(id) == old(
                    self,
                ).nonces.nonce_of(id),
            res is Ok ==> final(self).token.allowance_of(owner@, spender@) == value,
            res is Ok ==> forall|o: Seq<u8>, s2: Seq<u8>|
                !(o == owner@ && s2 == spender@) && o.len() == 20 && s2.len() == 20
                    ==> #[trigger] final(self).token.allowance_of(o, s2) == old(
                    self,
                ).token.allowance_of(o, s2),
            final(self).token.balances == old(self).token.balances,
            final(self).token.checkpoints == old(self).token.checkpoints,
            final(self).token.total_supply == old(self).token.total_supply,
            final(self).token.max_supply == old(self).token.max_supply,
            final(self).eip712 == old(self).eip712,
    {
        if now > deadline {
            return Err(TokenError::ExpiredSignature);
        }
        let nonce = self.nonces.current(owner);
        let digest = self.eip712.permit_digest(owner, spender, value, nonce, deadline);
        let recovered_bytes = ecdsa_recover(&digest, v, &r, &s);
        let recovered = match recovered_bytes {
            Some(b) => Some(AccountId::new(b)),
            None => None,
        };
        self.apply_permit(owner, spender, value, recovered)
    }

    /// The nonce the account's next permit must carry.
    pub fn nonces(&self, owner: &AccountId) -> (n: u64)
        ensures
            n == self.nonces.nonce_of(owner@),
    {
        self.nonces.current(owner)
    }

    /// The deployment's domain separator.
    pub fn domain_separator(&self) -> (r: Vec<u8>)
        ensures
            r@ == self.eip712.domain_sep@,
    {
        self.eip712.domain_separator()
    }

    /// The digest a signer must sign to permit (spender, value, deadline)
    /// at the given nonce; what external conformance checks sign.
    pub fn permit_digest(
        &self,
        owner: &AccountId,
        spender: &AccountId,
        value: u128,
        nonce: u64,
        deadline: u64,
    ) -> (d: Vec<u8>)
        ensures
            d@ == self.permit_digest_of(owner@, spender@, value, nonce, deadline),
            d@.len() == 32,
    {
        self.eip712.permit_digest(owner, spender, value, nonce, deadline)
    }
}

/// Law: a permit for the owner's current nonce, submitted in time and
/// whose signature recovers to the owner, is accepted.
pub proof fn law_permit_round_trip(
    pre: ERC20Permit,
    owner: Seq<u8>,
    spender: Seq<u8>,
    value: u128,
    deadline: u64,
    now: u64,
    v: u8,
    r: Seq<u8>,
    s: Seq<u8>,
)
    requires
        now <= deadline,
        pre.nonces.nonce_of(owner) < u64::MAX,
        recover_of(
            pre.permit_digest_of(owner, spender, value, pre.nonces.nonce_of(owner), deadline),
            v,
            r,
            s,
        ) == Some(owner),
    ensures
        permit_outcome(pre, owner, spender, value, deadline, now, v, r, s) == Ok::<
            (),
            TokenError,
        >(()),
{
}

/// Law: the deadline is inclusive -- a permit exactly at the deadline is
/// not expired, one submitted one time unit later is rejected as expired
/// whatever its signature.
pub proof fn law_deadline_boundary(
    pre: ERC20Permit,
    owner: Seq<u8>,
    spender: Seq<u8>,
    value: u128,
    deadline: u64,
    v: u8,
    r: Seq<u8>,
    s: Seq<u8>,
)
    requires
        deadline < u64::MAX,
    ensures
        permit_outcome(pre, owner, spender, value, deadline, deadline, v, r, s) != Err::<
            (),
            TokenError,
        >(TokenError::ExpiredSignature),
        permit_outcome(pre, owner, spender, value, deadline, (deadline + 1) as u64, v, r, s)
            == Err::<(), TokenError>(TokenError::ExpiredSignature),
{
    let rec = recover_of(
        pre.permit_digest_of(owner, spender, value, pre.nonces.nonce_of(owner), deadline),
        v,
        r,
        s,
    );
    match rec {
        None => {},
        Some(a) => {},
    }
}

/// Law: a permit whose recovered signer differs from the stated owner is
/// rejected as `InvalidSigner`.
pub proof fn law_wrong_signer_rejected(
    pre: ERC20Permit,
    owner: Seq<u8>,
    spender: Seq<u8>,
    value: u128,
    deadline: u64,
    now: u64,
    v: u8,
    r: Seq<u8>,
    s: Seq<u8>,
    signer: Seq<u8>,
)
    requires
        now <= deadline,
        recover_of(
            pre.permit_digest_of(owner, spender, value, pre.nonces.nonce_of(owner), deadline),
            v,
            r,
            s,
        ) == Some(signer),
        signer != owner,
    ensures
        permit_outcome(pre, owner, spender, value, deadline, now, v, r, s) == Err::<
            (),
            TokenError,
        >(TokenError::InvalidSigner),
{
}

} // verus!
