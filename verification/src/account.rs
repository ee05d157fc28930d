use crate::assoc::TableKey;
use vstd::prelude::*;
use vstd::string::{StrSliceExecFns, StringExecFns};

verus! {

/// The sixteen hexadecimal digit characters, in value order.
pub open spec fn hex_digits() -> Seq<char> {
    "0123456789abcdef"@
}

/// The hexadecimal rendering of a byte string: two digits per byte,
/// high nibble first.
pub open spec fn hex_of(id: Seq<u8>) -> Seq<char> {
    Seq::new(
        2 * id.len(),
        |i: int|
            if i % 2 == 0 {
                hex_digits()[(id[i / 2] >> 4u8) as int]
            } else {
                hex_digits()[(id[i / 2] & 0x0fu8) as int]
            },
    )
}

/// The byte sequence of the distinguished "anonymous" (zero) identity.
pub open spec fn anonymous_id() -> Seq<u8> {
    Seq::new(20, |i: int| 0u8)
}

/// A token holder's identity: an opaque 20-byte value, compared exactly.
#[derive(Clone, Copy, Debug)]
pub struct AccountId {
    pub bytes: [u8; 20],
}

impl View for AccountId {
    type V = Seq<u8>;

    open spec fn view(&self) -> Seq<u8> {
        self.bytes@
    }
}

impl AccountId {
    pub fn new(bytes: [u8; 20]) -> (r: AccountId)
        ensures
            r@ == bytes@,
    {
        AccountId { bytes }
    }

    /// The zero identity, used as the "nobody" sentinel by ownership
    /// handover and as the rejected mint target.
    pub fn anonymous() -> (r: AccountId)
        ensures
            r@ == anonymous_id(),
    {
        let a = AccountId { bytes: [0u8; 20] };
        proof {
            assert(a@ =~= anonymous_id());
        }
        a
    }

    /// Exact equality of two identities.
    pub fn same(&self, other: &AccountId) -> (r: bool)
        ensures
            r == (self@ == other@),
    {
        let mut i: usize = 0;
        while i < 20
            invariant
                i <= 20,
                forall|j: int| 0 <= j < i ==> self@[j] == other@[j],
            decreases 20 - i,
        {
            if self.bytes[i] != other.bytes[i] {
                assert(self@[i as int] != other@[i as int]);
                return false;
            }
            i = i + 1;
        }
        proof {
            assert(self@ =~= other@);
        }
        true
    }
}

impl AccountId {
    /// This identity as forty lowercase hexadecimal digits.
    pub fn hex_string(&self) -> (r: String)
        ensures
            r@ == hex_of(self@),
    {
        let digits = "0123456789abcdef";
        proof {
            reveal_strlit("0123456789abcdef");
        }
        let mut r = String::new();
        let mut i: usize = 0;
        while i < 20
            invariant
                i <= 20,
                digits@ == hex_digits(),
                digits@.len() == 16,
                digits.is_ascii(),
                r@ == hex_of(self@).take(2 * i as int),
            decreases 20 - i,
        {
            let b = self.bytes[i];
            let hi = (b >> 4u8) as usize;
            let lo = (b & 0x0fu8) as usize;
            proof {
                assert((b >> 4u8) < 16 && (b & 0x0fu8) < 16) by (bit_vector);
            }
            r.append(digits.substring_ascii(hi, hi + 1));
            r.append(digits.substring_ascii(lo, lo + 1));
            proof {
                assert(hex_of(self@)[2 * i as int] == hex_digits()[hi as int]);
                assert(hex_of(self@)[2 * i as int + 1] == hex_digits()[lo as int]);
                assert(r@ =~= hex_of(self@).take(2 * (i as int + 1)));
            }
            i = i + 1;
        }
        proof {
            assert(r@ =~= hex_of(self@));
        }
        r
    }
}

impl TableKey for AccountId {
    open spec fn key_id(&self) -> Seq<u8> {
        self@
    }

    fn key_eq(&self, other: &Self) -> (r: bool) {
        self.same(other)
    }
}

} // verus!
