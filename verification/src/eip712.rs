use crate::account::AccountId;
use vstd::prelude::*;
use vstd::string::StrSliceExecFns;
use vstd::string::StringSliceAdditionalSpecFns;

verus! {

/// What the 256-bit Keccak digest of a byte string is. Named, not spelled
/// out: nothing here re-states the permutation, the real one is called.
pub uninterp spec fn keccak_of(data: Seq<u8>) -> Seq<u8>;

/// Relies on ethers_core::utils::keccak256: the 32-byte Keccak-256 digest,
/// a function of the input bytes alone.
#[verifier::external_body]
fn keccak(data: &Vec<u8>) -> (r: Vec<u8>)
    ensures
        r@ == keccak_of(data@),
        r@.len() == 32,
{
    ethers_core::utils::keccak256(data.as_slice()).to_vec()
}

/// The 32-byte big-endian word of a 256-bit-encoded unsigned value.
pub open spec fn word_u128(v: u128) -> Seq<u8> {
    Seq::new(
        32,
        |i: int|
            if i < 16 {
                0u8
            } else {
                (((v >> (((31 - i) * 8) as u128)) & 0xff) as u8)
            },
    )
}

/// The 32-byte big-endian word of a 64-bit value.
pub open spec fn word_u64(v: u64) -> Seq<u8> {
    Seq::new(
        32,
        |i: int|
            if i < 24 {
                0u8
            } else {
                (((v >> (((31 - i) * 8) as u64)) & 0xff) as u8)
            },
    )
}

/// The 32-byte word of an address: twelve zero bytes, then the identity.
pub open spec fn word_account(a: Seq<u8>) -> Seq<u8> {
    Seq::new(12, |i: int| 0u8) + a
}

/// The type string whose hash tags a permit payload.
pub open spec fn permit_type_bytes() -> Seq<u8> {
    "Permit(address owner,address spender,uint256 value,uint256 nonce,uint256 deadline)".spec_bytes()
}

/// The type string whose hash tags the domain fields.
pub open spec fn domain_type_bytes() -> Seq<u8> {
    "EIP712Domain(string name,string version,uint256 chainId)".spec_bytes()
}

/// The fixed version string of this deployment.
pub open spec fn version_bytes() -> Seq<u8> {
    "1".spec_bytes()
}

/// The encoded permit payload: type tag hash, then each field as one
/// 32-byte word.
pub open spec fn permit_struct_encoding(
    owner: Seq<u8>,
    spender: Seq<u8>,
    value: u128,
    nonce: u64,
    deadline: u64,
) -> Seq<u8> {
    keccak_of(permit_type_bytes()) + word_account(owner) + word_account(spender) + word_u128(value)
        + word_u64(nonce) + word_u64(deadline)
}

/// The struct hash a signer commits to.
pub open spec fn permit_struct_hash(
    owner: Seq<u8>,
    spender: Seq<u8>,
    value: u128,
    nonce: u64,
    deadline: u64,
) -> Seq<u8> {
    keccak_of(permit_struct_encoding(owner, spender, value, nonce, deadline))
}

/// The domain separator of a deployment: hash of the domain type tag, the
/// hashed name, the hashed version and the execution-context identity.
pub open spec fn domain_separator_of(name: Seq<u8>, chain_id: u64) -> Seq<u8> {
    keccak_of(
        keccak_of(domain_type_bytes()) + keccak_of(name) + keccak_of(version_bytes()) + word_u64(
            chain_id,
        ),
    )
}

/// The final digest: the fixed typed-data prefix, the domain separator,
/// then the struct hash.
pub open spec fn typed_digest(dom: Seq<u8>, struct_hash: Seq<u8>) -> Seq<u8> {
    keccak_of(seq![0x19u8, 0x01u8] + dom + struct_hash)
}

/// Appends `src` whole.
fn push_bytes(out: &mut Vec<u8>, src: &Vec<u8>)
    ensures
        final(out)@ == old(out)@ + src@,
{
    let ghost base = out@;
    let mut i: usize = 0;
    proof {
        assert(out@ =~= base + src@.take(0));
    }
    while i < src.len()
        invariant
            i <= src@.len(),
            out@ == base + src@.take(i as int),
        decreases src@.len() - i,
    {
        out.push(src[i]);
        proof {
            assert(out@ =~= base + src@.take(i as int + 1));
        }
        i = i + 1;
    }
    proof {
        assert(out@ =~= base + src@);
    }
}

/// Appends the 32-byte word of a 64-bit value.
fn push_word_u64(out: &mut Vec<u8>, v: u64)
    ensures
        final(out)@ == old(out)@ + word_u64(v),
{
    let ghost base = out@;
    let mut i: usize = 0;
    proof {
        assert(out@ =~= base + word_u64(v).take(0));
    }
    while i < 32
        invariant
            i <= 32,
            out@ == base + word_u64(v).take(i as int),
        decreases 32 - i,
    {
        let b: u8 = if i < 24 {
            0
        } else {
            let sh: u64 = ((31 - i) * 8) as u64;
            ((v >> sh) & 0xff) as u8
        };
        out.push(b);
        proof {
            assert(b == word_u64(v)[i as int]);
            assert(out@ =~= base + word_u64(v).take(i as int + 1));
        }
        i = i + 1;
    }
    proof {
        assert(out@ =~= base + word_u64(v));
    }
}

/// Appends the 32-byte word of a 128-bit value.
fn push_word_u128(out: &mut Vec<u8>, v: u128)
    ensures
        final(out)@ == old(out)@ + word_u128(v),
{
    let ghost base = out@;
    let mut i: usize = 0;
    proof {
        assert(out@ =~= base + word_u128(v).take(0));
    }
    while i < 32
        invariant
            i <= 32,
            out@ == base + word_u128(v).take(i as int),
        decreases 32 - i,
    {
        let b: u8 = if i < 16 {
            0
        } else {
            let sh: u128 = ((31 - i) * 8) as u128;
            ((v >> sh) & 0xff) as u8
        };
        out.push(b);
        proof {
            assert(b == word_u128(v)[i as int]);
            assert(out@ =~= base + word_u128(v).take(i as int + 1));
        }
        i = i + 1;
    }
    proof {
        assert(out@ =~= base + word_u128(v));
    }
}

/// Appends the 32-byte word of an address.
fn push_word_account(out: &mut Vec<u8>, a: &AccountId)
    ensures
        final(out)@ == old(out)@ + word_account(a@),
{
    let ghost base = out@;
    let mut i: usize = 0;
    while i < 12
        invariant
            i <= 12,
            out@ == base + word_account(a@).take(i as int),
        decreases 12 - i,
    {
        out.push(0u8);
        proof {
            assert(out@ =~= base + word_account(a@).take(i as int + 1));
        }
        i = i + 1;
    }
    let mut j: usize = 0;
    while j < 20
        invariant
            j <= 20,
            out@ == base + word_account(a@).take(12 + j as int),
        decreases 20 - j,
    {
        out.push(a.bytes[j]);
        proof {
            assert(word_account(a@)[12 + j as int] == a@[j as int]);
            assert(out@ =~= base + word_account(a@).take(12 + j as int + 1));
        }
        j = j + 1;
    }
    proof {
        assert(out@ =~= base + word_account(a@));
    }
}

/// Builds the domain separator once at initialization and holds it for
/// the deployment's lifetime.
pub struct DomainHasher {
    pub domain_sep: Vec<u8>,
    pub name: Ghost<Seq<u8>>,
    pub chain_id: u64,
}

impl DomainHasher {
    /// The held separator is exactly the one derived from the recorded
    /// (name, version, context) triple.
    pub open spec fn wf(&self) -> bool {
        self.domain_sep@ == domain_separator_of(self.name@, self.chain_id)
            && self.domain_sep@.len() == 32
    }

    pub fn new(name_bytes: &Vec<u8>, chain_id: u64) -> (h: DomainHasher)
        ensures
            h.wf(),
            h.name@ == name_bytes@,
            h.chain_id == chain_id,
    {
        let domain_type = ("EIP712Domain(string name,string version,uint256 chainId)").as_bytes_vec();
        let domain_type_hash = keccak(&domain_type);
        let name_hash = keccak(name_bytes);
        let version = ("1").as_bytes_vec();
        let version_hash = keccak(&version);
        let mut enc: Vec<u8> = Vec::new();
        push_bytes(&mut enc, &domain_type_hash);
        push_bytes(&mut enc, &name_hash);
        push_bytes(&mut enc, &version_hash);
        push_word_u64(&mut enc, chain_id);
        proof {
            assert(enc@ =~= keccak_of(domain_type_bytes()) + keccak_of(name_bytes@) + keccak_of(
                version_bytes(),
            ) + word_u64(chain_id));
        }
        let sep = keccak(&enc);
        DomainHasher { domain_sep: sep, name: Ghost(name_bytes@), chain_id }
    }

    /// A copy of the separator, stable for the deployment's lifetime.
    pub fn domain_separator(&self) -> (r: Vec<u8>)
        ensures
            r@ == self.domain_sep@,
    {
        let mut r: Vec<u8> = Vec::new();
        push_bytes(&mut r, &self.domain_sep);
        proof {
            assert(r@ =~= self.domain_sep@);
        }
        r
    }

    /// The struct hash of a permit payload.
    pub fn struct_hash(
        &self,
        owner: &AccountId,
        spender: &AccountId,
        value: u128,
        nonce: u64,
        deadline: u64,
    ) -> (r: Vec<u8>)
        ensures
            r@ == permit_struct_hash(owner@, spender@, value, nonce, deadline),
            r@.len() == 32,
    {
        let type_string = (
        "Permit(address owner,address spender,uint256 value,uint256 nonce,uint256 deadline)"
        ).as_bytes_vec();
        let type_hash = keccak(&type_string);
        let mut enc: Vec<u8> = Vec::new();
        push_bytes(&mut enc, &type_hash);
        push_word_account(&mut enc, owner);
        push_word_account(&mut enc, spender);
        push_word_u128(&mut enc, value);
        push_word_u64(&mut enc, nonce);
        push_word_u64(&mut enc, deadline);
        proof {
            assert(enc@ =~= permit_struct_encoding(owner@, spender@, value, nonce, deadline));
        }
        keccak(&enc)
    }

    /// Combines the fixed prefix, the domain separator and a struct hash
    /// into the digest a signer must have signed.
    pub fn digest(&self, struct_hash: &Vec<u8>) -> (r: Vec<u8>)
        ensures
            r@ == typed_digest(self.domain_sep@, struct_hash@),
            r@.len() == 32,
    {
        let mut enc: Vec<u8> = Vec::new();
        enc.push(0x19u8);
        enc.push(0x01u8);
        push_bytes(&mut enc, &self.domain_sep);
        push_bytes(&mut enc, struct_hash);
        proof {
            assert(enc@ =~= seq![0x19u8, 0x01u8] + self.domain_sep@ + struct_hash@);
        }
        keccak(&enc)
    }

    /// The full digest of a permit payload under this domain.
    pub fn permit_digest(
        &self,
        owner: &AccountId,
        spender: &AccountId,
        value: u128,
        nonce: u64,
        deadline: u64,
    ) -> (r: Vec<u8>)
        ensures
            r@ == typed_digest(
                self.domain_sep@,
                permit_struct_hash(owner@, spender@, value, nonce, deadline),
            ),
            r@.len() == 32,
    {
        let sh = self.struct_hash(owner, spender, value, nonce, deadline);
        self.digest(&sh)
    }
}

} // verus!
