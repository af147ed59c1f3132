//! Plain word types for ledger state: 20-byte addresses, 256-bit unsigned
//! words, and 256-bit digests, each stored as big-endian fixed-width limbs so
//! that equality and range checks are ordinary integer comparisons.

use vstd::prelude::*;

verus! {

/// A 20-byte account identifier, stored as two big-endian 64-bit words
/// followed by one big-endian 32-bit word.
#[derive(Clone, Copy, PartialEq, Eq, Structural, Debug, Hash)]
pub struct Address {
    pub w0: u64,
    pub w1: u64,
    pub w2: u32,
}

/// A 256-bit unsigned word (balances, storage keys and values, block
/// numbers), stored as four big-endian 64-bit limbs: `w0` is the most
/// significant limb, `w3` the least.
#[derive(Clone, Copy, PartialEq, Eq, Structural, Debug, Hash)]
pub struct U256 {
    pub w0: u64,
    pub w1: u64,
    pub w2: u64,
    pub w3: u64,
}

/// A 256-bit digest (code hashes, block hashes), stored as four big-endian
/// 64-bit limbs: `w0` is the most significant limb, `w3` the least.
#[derive(Clone, Copy, PartialEq, Eq, Structural, Debug, Hash)]
pub struct B256 {
    pub w0: u64,
    pub w1: u64,
    pub w2: u64,
    pub w3: u64,
}

/// The big-endian 64-bit word spelled by the eight bytes of `s` at `off`.
pub open spec fn be_u64(s: Seq<u8>, off: int) -> u64 {
    ((s[off] as int) * 0x100000000000000
        + (s[off + 1] as int) * 0x1000000000000
        + (s[off + 2] as int) * 0x10000000000
        + (s[off + 3] as int) * 0x100000000
        + (s[off + 4] as int) * 0x1000000
        + (s[off + 5] as int) * 0x10000
        + (s[off + 6] as int) * 0x100
        + (s[off + 7] as int)) as u64
}

/// The big-endian 32-bit word spelled by the four bytes of `s` at `off`.
pub open spec fn be_u32(s: Seq<u8>, off: int) -> u32 {
    ((s[off] as int) * 0x1000000
        + (s[off + 1] as int) * 0x10000
        + (s[off + 2] as int) * 0x100
        + (s[off + 3] as int)) as u32
}

/// Reads the eight bytes at `off` as one big-endian 64-bit word.
fn read_be_u64(v: &Vec<u8>, off: usize) -> (r: u64)
    requires
        off + 8 <= v@.len(),
    ensures
        r == be_u64(v@, off as int),
{
    let n: usize = v.len();
    assert(off + 8 <= n);
    let b0 = v[off] as u64;
    let b1 = v[off + 1] as u64;
    let b2 = v[off + 2] as u64;
    let b3 = v[off + 3] as u64;
    let b4 = v[off + 4] as u64;
    let b5 = v[off + 5] as u64;
    let b6 = v[off + 6] as u64;
    let b7 = v[off + 7] as u64;
    b0 * 0x100000000000000 + b1 * 0x1000000000000 + b2 * 0x10000000000 + b3 * 0x100000000
        + b4 * 0x1000000 + b5 * 0x10000 + b6 * 0x100 + b7
}

/// Reads the four bytes at `off` as one big-endian 32-bit word.
fn read_be_u32(v: &Vec<u8>, off: usize) -> (r: u32)
    requires
        off + 4 <= v@.len(),
    ensures
        r == be_u32(v@, off as int),
{
    let n: usize = v.len();
    assert(off + 4 <= n);
    let b0 = v[off] as u32;
    let b1 = v[off + 1] as u32;
    let b2 = v[off + 2] as u32;
    let b3 = v[off + 3] as u32;
    b0 * 0x1000000 + b1 * 0x10000 + b2 * 0x100 + b3
}

/// The digest whose 32 bytes are those of `s`, read as big-endian limbs.
pub open spec fn b256_from_bytes(s: Seq<u8>) -> B256 {
    B256 {
        w0: be_u64(s, 0),
        w1: be_u64(s, 8),
        w2: be_u64(s, 16),
        w3: be_u64(s, 24),
    }
}

/// The address whose 20 bytes are those of `s`, read as big-endian limbs.
pub open spec fn address_from_bytes(s: Seq<u8>) -> Address {
    Address {
        w0: be_u64(s, 0),
        w1: be_u64(s, 8),
        w2: be_u32(s, 16),
    }
}

impl B256 {
    /// Packs a 32-byte string into a digest value.
    pub fn from_bytes(v: &Vec<u8>) -> (r: B256)
        requires
            v@.len() == 32,
        ensures
            r == b256_from_bytes(v@),
    {
        B256 {
            w0: read_be_u64(v, 0),
            w1: read_be_u64(v, 8),
            w2: read_be_u64(v, 16),
            w3: read_be_u64(v, 24),
        }
    }
}

impl Address {
    /// Packs a 20-byte string into an address.
    pub fn from_bytes(v: &Vec<u8>) -> (r: Address)
        requires
            v@.len() == 20,
        ensures
            r == address_from_bytes(v@),
    {
        Address {
            w0: read_be_u64(v, 0),
            w1: read_be_u64(v, 8),
            w2: read_be_u32(v, 16),
        }
    }
}

impl U256 {
    /// The number `self` stands for.
    pub open spec fn as_nat(self) -> nat {
        (self.w0 as nat) * 0x1000000000000000000000000000000000000000000000000
            + (self.w1 as nat) * 0x100000000000000000000000000000000
            + (self.w2 as nat) * 0x10000000000000000
            + (self.w3 as nat)
    }

    /// The word standing for `n`.
    pub open spec fn spec_from_u64(n: u64) -> U256 {
        U256 { w0: 0, w1: 0, w2: 0, w3: n }
    }

    /// Widens a 64-bit number into a 256-bit word.
    pub fn from_u64(n: u64) -> (r: U256)
        ensures
            r == U256::spec_from_u64(n),
            r.as_nat() == n,
    {
        U256 { w0: 0, w1: 0, w2: 0, w3: n }
    }

    /// The word for zero.
    pub open spec fn spec_zero() -> U256 {
        U256 { w0: 0, w1: 0, w2: 0, w3: 0 }
    }

    /// Builds the zero word.
    pub fn zero() -> (r: U256)
        ensures
            r == U256::spec_zero(),
            r.as_nat() == 0,
    {
        U256 { w0: 0, w1: 0, w2: 0, w3: 0 }
    }

    /// Whether the word is within the 64-bit range.
    pub open spec fn spec_fits_u64(self) -> bool {
        self.w0 == 0 && self.w1 == 0 && self.w2 == 0
    }

    /// Tests whether the word is within the 64-bit range.
    pub fn fits_u64(&self) -> (r: bool)
        ensures
            r == self.spec_fits_u64(),
    {
        self.w0 == 0 && self.w1 == 0 && self.w2 == 0
    }

    /// Narrows a word within the 64-bit range to its low limb.
    pub fn to_u64(&self) -> (r: u64)
        requires
            self.spec_fits_u64(),
        ensures
            r == self.w3,
            r == self.as_nat(),
    {
        self.w3
    }
}

/// Copies a byte string; the copy reads the same.
pub fn clone_bytes(v: &Vec<u8>) -> (r: Vec<u8>)
    ensures
        r@ == v@,
{
    let n = v.len();
    let mut r: Vec<u8> = Vec::new();
    let mut i: usize = 0;
    while i < n
        invariant
            i <= n,
            n == v@.len(),
            r@ == v@.take(i as int),
        decreases n - i,
    {
        r.push(v[i]);
        proof {
            assert(r@ =~= v@.take(i as int + 1));
        }
        i = i + 1;
    }
    proof {
        assert(r@ =~= v@);
    }
    r
}

/// Being within the 64-bit range is exactly having a value at most `u64::MAX`.
pub proof fn lemma_fits_u64_iff_small(w: U256)
    ensures
        w.spec_fits_u64() <==> w.as_nat() <= u64::MAX,
{
    if !w.spec_fits_u64() {
        assert(w.as_nat() > u64::MAX) by (nonlinear_arith)
            requires
                w.w0 > 0 || w.w1 > 0 || w.w2 > 0,
                w.as_nat() == (w.w0 as nat) * 0x1000000000000000000000000000000000000000000000000
                    + (w.w1 as nat) * 0x100000000000000000000000000000000
                    + (w.w2 as nat) * 0x10000000000000000 + (w.w3 as nat),
        ;
    }
}

} // verus!
