//! The revision hash type and its two read-only projections.

use vstd::prelude::*;

use crate::hex::{bytes_to_hex, hex_char_of, is_lower_hex_char, lemma_hex_round_trip};

verus! {

/// The number of bytes in a complete revision hash.
pub const HASH_BYTES: usize = 20;

/// The most significant eight bytes of a sequence, read as one big-endian
/// 64-bit integer.
pub open spec fn most_significant_u64_of(s: Seq<u8>) -> u64
    recommends
        s.len() >= 8,
{
    (s[0] * 0x100_0000_0000_0000 + s[1] * 0x1_0000_0000_0000 + s[2] * 0x100_0000_0000 + s[3]
        * 0x1_0000_0000 + s[4] * 0x100_0000 + s[5] * 0x1_0000 + s[6] * 0x100 + s[7]) as u64
}

/// A revision hash: exactly twenty bytes, ordered from most to least
/// significant (big endian).
#[derive(Debug, PartialEq, Eq, PartialOrd, Ord, Hash)]
pub struct Hash {
    bytes: Vec<u8>,
}

impl Clone for Hash {
    /// An independent copy of the same twenty bytes.
    fn clone(&self) -> (r: Hash)
        ensures
            r@ == self@,
    {
        proof {
            use_type_invariant(self);
        }
        Hash { bytes: self.bytes.clone() }
    }
}

impl View for Hash {
    type V = Seq<u8>;

    closed spec fn view(&self) -> Seq<u8> {
        self.bytes@
    }
}

impl Hash {
    /// A hash always holds exactly twenty bytes.
    #[verifier::type_invariant]
    spec fn type_inv(&self) -> bool {
        self.bytes@.len() == HASH_BYTES
    }

    /// The number of bytes in this hash: always twenty.
    pub fn len(&self) -> (r: usize)
        ensures
            r == self@.len(),
            r == HASH_BYTES,
    {
        proof {
            use_type_invariant(self);
        }
        self.bytes.len()
    }

    /// Builds a hash from its bytes, most significant first; any length
    /// other than twenty is rejected.
    pub fn from_bytes(bytes: Vec<u8>) -> (r: Option<Hash>)
        ensures
            r is Some <==> bytes@.len() == HASH_BYTES,
            r is Some ==> r->0@ == bytes@,
    {
        if bytes.len() == HASH_BYTES {
            Some(Hash { bytes })
        } else {
            None
        }
    }

    /// The bytes of this hash, most significant first.
    pub fn as_bytes(&self) -> (r: &Vec<u8>)
        ensures
            r@ == self@,
            r@.len() == HASH_BYTES,
    {
        proof {
            use_type_invariant(self);
        }
        &self.bytes
    }

    /// Returns the 64 most significant bits of this hash as a u64.
    pub fn most_significant_u64(&self) -> (r: u64)
        ensures
            r == most_significant_u64_of(self@),
    {
        proof {
            use_type_invariant(self);
        }
        let x0 = self.bytes[0];
        let x1 = self.bytes[1];
        let x2 = self.bytes[2];
        let x3 = self.bytes[3];
        let x4 = self.bytes[4];
        let x5 = self.bytes[5];
        let x6 = self.bytes[6];
        let x7 = self.bytes[7];
        let r = (x0 as u64) << 56 | (x1 as u64) << 48 | (x2 as u64) << 40 | (x3 as u64) << 32 | (
        x4 as u64) << 24 | (x5 as u64) << 16 | (x6 as u64) << 8 | (x7 as u64);
        proof {
            assert(r == (x0 * 0x100_0000_0000_0000 + x1 * 0x1_0000_0000_0000 + x2
                * 0x100_0000_0000 + x3 * 0x1_0000_0000 + x4 * 0x100_0000 + x5 * 0x1_0000 + x6
                * 0x100 + x7) as u64) by (bit_vector)
                requires
                    r == (x0 as u64) << 56 | (x1 as u64) << 48 | (x2 as u64) << 40 | (x3 as u64)
                        << 32 | (x4 as u64) << 24 | (x5 as u64) << 16 | (x6 as u64) << 8 | (
                    x7 as u64),
            ;
        }
        r
    }

    /// Renders this hash as forty lowercase hexadecimal characters, two per
    /// byte, most significant byte first: the format the revision command
    /// itself prints.
    pub fn to_hex_string(&self) -> (r: String)
        ensures
            r@ == bytes_to_hex(self@),
            r@.len() == 2 * HASH_BYTES,
            forall|i: int| 0 <= i < r@.len() ==> is_lower_hex_char(#[trigger] r@[i]),
    {
        proof {
            use_type_invariant(self);
        }
        let digits = "0123456789abcdef";
        proof {
            reveal_strlit("0123456789abcdef");
            assert(digits.is_ascii());
            assert forall|n: int| 0 <= n < 16 implies digits@[n] == hex_char_of(n as u8) by {}
        }
        let mut out = String::new();
        let mut i: usize = 0;
        while i < HASH_BYTES
            invariant
                self.bytes@.len() == HASH_BYTES,
                digits@.len() == 16,
                digits.is_ascii(),
                forall|n: int| 0 <= n < 16 ==> #[trigger] digits@[n] == hex_char_of(n as u8),
                i <= HASH_BYTES,
                out@ == bytes_to_hex(self@.subrange(0, i as int)),
            decreases HASH_BYTES - i,
        {
            let b = self.bytes[i];
            let hi = (b / 16) as usize;
            let lo = (b % 16) as usize;
            out.append(digits.substring_ascii(hi, hi + 1));
            out.append(digits.substring_ascii(lo, lo + 1));
            i += 1;
            proof {
                assert(out@ =~= bytes_to_hex(self@.subrange(0, i as int)));
            }
        }
        proof {
            assert(self@.subrange(0, HASH_BYTES as int) =~= self@);
            lemma_hex_round_trip(self@);
        }
        out
    }
}

} // verus!
