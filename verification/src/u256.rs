//! Unsigned 256-bit integers and 20-byte addresses.

use vstd::prelude::*;
use crate::bigend::{
    be_min, be_value, left_padded, lemma_first_difference, lemma_fixed_width_unique,
    lemma_min_value, lemma_value_left_padded, lemma_value_zeros, trim_leading_zeros,
    u64_to_be_min,
};

verus! {

/// An unsigned 256-bit integer, held as 32 big-endian bytes. Its view is the
/// number it stands for.
#[derive(Clone, Copy, Debug, PartialEq, Eq)]
pub struct U256 {
    pub bytes: [u8; 32],
}

impl View for U256 {
    type V = nat;

    open spec fn view(&self) -> nat {
        be_value(self.bytes@)
    }
}

/// The 20-byte identity of an account. Its view is its bytes.
#[derive(Clone, Copy, Debug, PartialEq, Eq)]
pub struct Address {
    pub bytes: [u8; 20],
}

impl View for Address {
    type V = Seq<u8>;

    open spec fn view(&self) -> Seq<u8> {
        self.bytes@
    }
}

/// Copies the bytes of a slice.
pub fn copy_bytes(s: &[u8]) -> (out: Vec<u8>)
    ensures
        out@ == s@,
{
    let mut out: Vec<u8> = Vec::new();
    let n: usize = s.len();
    let mut i: usize = 0;
    while i < n
        invariant
            n == s@.len(),
            i <= n,
            out@ == s@.subrange(0, i as int),
        decreases n - i,
    {
        out.push(s[i]);
        proof {
            assert(out@ =~= s@.subrange(0, i as int + 1));
        }
        i = i + 1;
    }
    proof {
        assert(s@.subrange(0, n as int) =~= s@);
    }
    out
}

/// Whether two slices hold the same bytes.
pub fn same_bytes(a: &[u8], b: &[u8]) -> (r: bool)
    ensures
        r <==> a@ == b@,
{
    let n: usize = a.len();
    if b.len() != n {
        return false;
    }
    let mut i: usize = 0;
    while i < n
        invariant
            n == a@.len(),
            n == b@.len(),
            i <= n,
            a@.subrange(0, i as int) == b@.subrange(0, i as int),
        decreases n - i,
    {
        if a[i] != b[i] {
            return false;
        }
        proof {
            assert(a@.subrange(0, i as int + 1) =~= a@.subrange(0, i as int).push(a@[i as int]));
            assert(b@.subrange(0, i as int + 1) =~= b@.subrange(0, i as int).push(b@[i as int]));
        }
        i = i + 1;
    }
    proof {
        assert(a@.subrange(0, n as int) =~= a@);
        assert(b@.subrange(0, n as int) =~= b@);
    }
    true
}

impl U256 {
    /// Zero.
    pub fn zero() -> (out: U256)
        ensures
            out@ == 0,
    {
        let out = U256 { bytes: [0u8; 32] };
        proof {
            lemma_value_zeros(out.bytes@);
        }
        out
    }

    /// Reads a big-endian byte string of at most 32 bytes; longer ones do
    /// not fit.
    pub fn from_be_slice(s: &[u8]) -> (out: Option<U256>)
        ensures
            out is Some <==> s@.len() <= 32,
            out matches Some(x) ==> x@ == be_value(s@) && x.bytes@ == left_padded(s@, 32),
    {
        let n: usize = s.len();
        if n > 32 {
            return None;
        }
        let mut bytes: [u8; 32] = [0u8; 32];
        let pad: usize = 32 - n;
        let mut i: usize = 0;
        while i < n
            invariant
                n == s@.len(),
                n <= 32,
                pad == 32 - n,
                i <= n,
                forall|j: int| 0 <= j < pad ==> bytes@[j] == 0,
                forall|j: int| 0 <= j < i ==> bytes@[pad + j] == s@[j],
            decreases n - i,
        {
            bytes[pad + i] = s[i];
            i = i + 1;
        }
        proof {
            assert(bytes@ =~= left_padded(s@, 32));
            lemma_value_left_padded(s@, 32);
        }
        Some(U256 { bytes })
    }

    /// The number `x`.
    pub fn from_u64(x: u64) -> (out: U256)
        ensures
            out@ == x as nat,
    {
        let min = u64_to_be_min(x);
        proof {
            lemma_min_value(x as nat);
        }
        let out = U256::from_be_slice(min.as_slice());
        out.unwrap()
    }

    /// The shortest big-endian byte string of the number.
    pub fn to_be_min(&self) -> (out: Vec<u8>)
        ensures
            out@ == be_min(self@),
            out@.len() <= 32,
    {
        trim_leading_zeros(self.bytes.as_slice())
    }

    /// Whether the number is zero.
    pub fn is_zero(&self) -> (r: bool)
        ensures
            r <==> self@ == 0,
    {
        let z = U256::zero();
        self.same(&z)
    }

    /// Whether two values are the same number.
    pub fn same(&self, other: &U256) -> (r: bool)
        ensures
            r <==> self@ == other@,
            r <==> self.bytes@ == other.bytes@,
    {
        proof {
            if self@ == other@ {
                lemma_fixed_width_unique(self.bytes@, other.bytes@);
            }
        }
        same_bytes(self.bytes.as_slice(), other.bytes.as_slice())
    }

    /// Whether this number is smaller than the other.
    pub fn lt(&self, other: &U256) -> (r: bool)
        ensures
            r <==> self@ < other@,
    {
        let mut i: usize = 0;
        while i < 32
            invariant
                i <= 32,
                self.bytes@.subrange(0, i as int) == other.bytes@.subrange(0, i as int),
            decreases 32 - i,
        {
            let a: u8 = self.bytes[i];
            let b: u8 = other.bytes[i];
            if a < b {
                proof {
                    lemma_first_difference(self.bytes@, other.bytes@, i as int);
                }
                return true;
            }
            if a > b {
                proof {
                    lemma_first_difference(other.bytes@, self.bytes@, i as int);
                }
                return false;
            }
            proof {
                assert(self.bytes@.subrange(0, i as int + 1) =~= self.bytes@.subrange(
                    0,
                    i as int,
                ).push(a));
                assert(other.bytes@.subrange(0, i as int + 1) =~= other.bytes@.subrange(
                    0,
                    i as int,
                ).push(b));
            }
            i = i + 1;
        }
        proof {
            assert(self.bytes@.subrange(0, 32) =~= self.bytes@);
            assert(other.bytes@.subrange(0, 32) =~= other.bytes@);
        }
        false
    }
}

impl Address {
    /// Reads an address from exactly 20 bytes.
    pub fn from_slice(s: &[u8]) -> (out: Option<Address>)
        ensures
            out is Some <==> s@.len() == 20,
            out matches Some(a) ==> a@ == s@,
    {
        if s.len() != 20 {
            return None;
        }
        let mut bytes: [u8; 20] = [0u8; 20];
        let mut i: usize = 0;
        while i < 20
            invariant
                s@.len() == 20,
                i <= 20,
                forall|j: int| 0 <= j < i ==> bytes@[j] == s@[j],
            decreases 20 - i,
        {
            bytes[i] = s[i];
            i = i + 1;
        }
        proof {
            assert(bytes@ =~= s@);
        }
        Some(Address { bytes })
    }

    /// The 20 bytes.
    pub fn to_vec(&self) -> (out: Vec<u8>)
        ensures
            out@ == self@,
    {
        copy_bytes(self.bytes.as_slice())
    }

    /// Whether two addresses are the same.
    pub fn same(&self, other: &Address) -> (r: bool)
        ensures
            r <==> self@ == other@,
    {
        same_bytes(self.bytes.as_slice(), other.bytes.as_slice())
    }
}

} // verus!
