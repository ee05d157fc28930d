use k256::ecdsa::SigningKey;
use k256::elliptic_curve::sec1::ToSec1Point;
use token_core::account::AccountId;
use token_core::errors::TokenError;
use token_core::permit::ERC20Permit;

/// A deterministic key and the address it signs for.
fn test_key(seed: u8) -> (SigningKey, AccountId) {
    let mut sk_bytes = [0u8; 32];
    sk_bytes[31] = seed;
    sk_bytes[0] = 1;
    let sk = SigningKey::from_slice(&sk_bytes).unwrap();
    let point = sk.verifying_key().to_sec1_point(false);
    let pk = point.as_bytes();
    assert_eq!(pk[0], 4);
    let hash = ethers_core::utils::keccak256(&pk[1..]);
    let mut addr = [0u8; 20];
    addr.copy_from_slice(&hash[12..32]);
    (sk, AccountId::new(addr))
}

/// Signs a 32-byte digest, returning (v, r, s) in recoverable form.
fn sign_digest(sk: &SigningKey, digest: &[u8]) -> (u8, [u8; 32], [u8; 32]) {
    let (sig, recid) = sk.sign_prehash_recoverable(digest);
    let bytes = sig.to_bytes();
    let mut r = [0u8; 32];
    let mut s = [0u8; 32];
    r.copy_from_slice(&bytes[..32]);
    s.copy_from_slice(&bytes[32..]);
    (27 + recid.to_byte(), r, s)
}

fn spender() -> AccountId {
    let mut b = [0u8; 20];
    b[19] = 0x42;
    AccountId::new(b)
}

#[test]
fn permit_round_trip_grants_allowance() {
    let mut token = ERC20Permit::new("Streamlivr".to_string(), 1);
    let (sk, owner) = test_key(7);
    let sp = spender();

    assert_eq!(token.nonces(&owner), 0);
    let digest = token.permit_digest(&owner, &sp, 500, 0, 1_000);
    assert_eq!(digest.len(), 32);
    let (v, r, s) = sign_digest(&sk, &digest);

    assert_eq!(token.permit(&owner, &sp, 500, 1_000, 999, v, r, s), Ok(()));
    assert_eq!(token.token.allowance(&owner, &sp), 500);
    assert_eq!(token.nonces(&owner), 1);
}

#[test]
fn permit_replay_is_rejected() {
    let mut token = ERC20Permit::new("Streamlivr".to_string(), 1);
    let (sk, owner) = test_key(7);
    let sp = spender();

    let digest = token.permit_digest(&owner, &sp, 500, 0, 1_000);
    let (v, r, s) = sign_digest(&sk, &digest);
    assert_eq!(token.permit(&owner, &sp, 500, 1_000, 10, v, r, s), Ok(()));

    // the identical signed payload is bound to the consumed nonce:
    // replaying it fails and leaves nonce and allowance untouched
    token.token.approve(&owner, &sp, 123);
    assert!(token.permit(&owner, &sp, 500, 1_000, 10, v, r, s).is_err());
    assert_eq!(token.nonces(&owner), 1);
    assert_eq!(token.token.allowance(&owner, &sp), 123);
}

#[test]
fn permit_deadline_is_inclusive() {
    let mut token = ERC20Permit::new("Streamlivr".to_string(), 1);
    let (sk, owner) = test_key(9);
    let sp = spender();

    let digest = token.permit_digest(&owner, &sp, 5, 0, 700);
    let (v, r, s) = sign_digest(&sk, &digest);
    // exactly at the deadline: accepted
    assert_eq!(token.permit(&owner, &sp, 5, 700, 700, v, r, s), Ok(()));
    assert_eq!(token.token.allowance(&owner, &sp), 5);
}

#[test]
fn permit_after_deadline_expires() {
    let mut token = ERC20Permit::new("Streamlivr".to_string(), 1);
    let (sk, owner) = test_key(9);
    let sp = spender();

    let digest = token.permit_digest(&owner, &sp, 5, 0, 700);
    let (v, r, s) = sign_digest(&sk, &digest);
    // one time unit past the deadline: rejected, nothing changes
    assert_eq!(
        token.permit(&owner, &sp, 5, 700, 701, v, r, s),
        Err(TokenError::ExpiredSignature)
    );
    assert_eq!(token.token.allowance(&owner, &sp), 0);
    assert_eq!(token.nonces(&owner), 0);
}

#[test]
fn permit_wrong_signer_is_rejected() {
    let mut token = ERC20Permit::new("Streamlivr".to_string(), 1);
    let (_, owner) = test_key(7);
    let (other_sk, _) = test_key(8);
    let sp = spender();

    let digest = token.permit_digest(&owner, &sp, 500, 0, 1_000);
    let (v, r, s) = sign_digest(&other_sk, &digest);
    assert_eq!(
        token.permit(&owner, &sp, 500, 1_000, 10, v, r, s),
        Err(TokenError::InvalidSigner)
    );
    assert_eq!(token.token.allowance(&owner, &sp), 0);
    assert_eq!(token.nonces(&owner), 0);
}

#[test]
fn permit_malformed_signature_is_rejected() {
    let mut token = ERC20Permit::new("Streamlivr".to_string(), 1);
    let (_, owner) = test_key(7);
    let sp = spender();

    // zero scalars name no key at all
    assert_eq!(
        token.permit(&owner, &sp, 1, 1_000, 10, 27, [0u8; 32], [0u8; 32]),
        Err(TokenError::InvalidSignature)
    );
    assert_eq!(token.nonces(&owner), 0);
}

#[test]
fn domain_separates_deployments() {
    let a = ERC20Permit::new("Streamlivr".to_string(), 1);
    let b = ERC20Permit::new("Streamlivr".to_string(), 2);
    let c = ERC20Permit::new("Other".to_string(), 1);

    let da = a.domain_separator();
    assert_eq!(da.len(), 32);
    // the separator is a digest, not an echo of any input
    assert_ne!(da, b.domain_separator());
    assert_ne!(da, c.domain_separator());

    // the digest binds the nonce: consecutive nonces give distinct digests
    let (_, owner) = test_key(7);
    let sp = spender();
    let d0 = a.permit_digest(&owner, &sp, 500, 0, 1_000);
    let d1 = a.permit_digest(&owner, &sp, 500, 1, 1_000);
    assert_ne!(d0, d1);
}

#[test]
fn apply_permit_decides_on_recovered_identity() {
    let mut token = ERC20Permit::new("Streamlivr".to_string(), 1);
    let (_, owner) = test_key(7);
    let (_, other) = test_key(8);
    let sp = spender();

    assert_eq!(
        token.apply_permit(&owner, &sp, 9, None),
        Err(TokenError::InvalidSignature)
    );
    assert_eq!(
        token.apply_permit(&owner, &sp, 9, Some(other)),
        Err(TokenError::InvalidSigner)
    );
    assert_eq!(token.nonces(&owner), 0);
    assert_eq!(token.apply_permit(&owner, &sp, 9, Some(owner)), Ok(()));
    assert_eq!(token.nonces(&owner), 1);
    assert_eq!(token.token.allowance(&owner, &sp), 9);
}
