//! Fixed-width words of the ABI encoding: 256-bit unsigned integers and
//! 20-byte addresses, read big-endian out of calldata.
use vstd::prelude::*;
use vstd::arithmetic::div_mod::lemma_fundamental_div_mod;

verus! {

/// 2^128, the weight of the high half of a `U256`.
pub open spec fn half_base() -> nat {
    0x1_0000_0000_0000_0000_0000_0000_0000_0000nat
}

/// 256 to the power `n`.
pub open spec fn pow256(n: nat) -> nat
    decreases n,
{
    if n == 0 {
        1
    } else {
        256 * pow256((n - 1) as nat)
    }
}

/// The number that the bytes `s` spell, most significant byte first.
pub open spec fn be_nat(s: Seq<u8>) -> nat
    decreases s.len(),
{
    if s.len() == 0 {
        0
    } else {
        be_nat(s.drop_last()) * 256 + s.last() as nat
    }
}

pub proof fn lemma_be_nat_bound(s: Seq<u8>)
    ensures
        be_nat(s) < pow256(s.len()),
    decreases s.len(),
{
    if s.len() > 0 {
        lemma_be_nat_bound(s.drop_last());
        let a = be_nat(s.drop_last());
        let p = pow256((s.len() - 1) as nat);
        let b = s.last() as nat;
        assert(a * 256 + b < p * 256) by (nonlinear_arith)
            requires
                a < p,
                b < 256,
        ;
    }
}

proof fn lemma_pow256_16()
    ensures
        pow256(16) == half_base(),
{
    reveal_with_fuel(pow256, 17);
}

proof fn lemma_pow256_mono(a: nat, b: nat)
    requires
        a <= b,
    ensures
        pow256(a) <= pow256(b),
    decreases b,
{
    if a < b {
        lemma_pow256_mono(a, (b - 1) as nat);
    }
}

/// An unsigned 256-bit integer, as two 128-bit halves.
#[derive(Clone, Copy, Debug, PartialEq, Eq, Structural)]
pub struct U256 {
    pub hi: u128,
    pub lo: u128,
}

impl U256 {
    /// The number this word stands for.
    pub open spec fn value(self) -> nat {
        self.hi as nat * half_base() + self.lo as nat
    }

    pub fn zero() -> (r: U256)
        ensures
            r.value() == 0,
            r.hi == 0 && r.lo == 0,
    {
        U256 { hi: 0, lo: 0 }
    }

    pub fn from_u128(v: u128) -> (r: U256)
        ensures
            r.value() == v as nat,
            r.hi == 0 && r.lo == v,
    {
        U256 { hi: 0, lo: v }
    }

    /// Numeric `<` on the two words.
    pub fn lt(&self, other: &U256) -> (r: bool)
        ensures
            r == (self.value() < other.value()),
    {
        proof {
            let (a, b, c, d) = (self.hi as nat, self.lo as nat, other.hi as nat, other.lo as nat);
            let h = half_base();
            if a < c {
                assert(a * h + b < c * h + d) by (nonlinear_arith)
                    requires
                        a < c,
                        b < h,
                ;
            } else if a > c {
                assert(c * h + d < a * h + b) by (nonlinear_arith)
                    requires
                        c < a,
                        d < h,
                ;
            }
        }
        self.hi < other.hi || (self.hi == other.hi && self.lo < other.lo)
    }

    /// The larger of the two words.
    pub fn max(&self, other: &U256) -> (r: U256)
        ensures
            r == (if self.value() < other.value() { *other } else { *self }),
            r.value() == max_nat(self.value(), other.value()),
    {
        if self.lt(other) {
            *other
        } else {
            *self
        }
    }
}

/// Divides by a nonzero `u64`, long division over 64-bit limbs.
pub fn div_rem_u64(v: U256, d: u64) -> (r: (U256, u64))
    requires
        d > 0,
    ensures
        r.0.value() * d + r.1 == v.value(),
        r.1 < d,
{
    let dd: u128 = d as u128;
    let b: u128 = 0x1_0000_0000_0000_0000;
    let q_hi = v.hi / dd;
    let r1 = v.hi % dd;
    let l1 = v.lo / b;
    let l0 = v.lo % b;
    proof {
        lemma_fundamental_div_mod(v.hi as int, dd as int);
        lemma_fundamental_div_mod(v.lo as int, b as int);
        assert(r1 * b + l1 < dd * b) by (nonlinear_arith)
            requires
                r1 < dd,
                l1 < b,
        ;
        assert(dd * b <= 0xffff_ffff_ffff_ffff * b) by (nonlinear_arith)
            requires
                dd <= 0xffff_ffff_ffff_ffff,
        ;
    }
    let cur1 = r1 * b + l1;
    let q1 = cur1 / dd;
    let r2 = cur1 % dd;
    proof {
        lemma_fundamental_div_mod(cur1 as int, dd as int);
        assert(q1 < b) by (nonlinear_arith)
            requires
                cur1 == dd * q1 + r2,
                cur1 < dd * b,
                r2 >= 0,
                dd > 0,
        ;
        assert(r2 * b + l0 < dd * b) by (nonlinear_arith)
            requires
                r2 < dd,
                l0 < b,
        ;
    }
    let cur2 = r2 * b + l0;
    let q0 = cur2 / dd;
    let r0 = cur2 % dd;
    proof {
        lemma_fundamental_div_mod(cur2 as int, dd as int);
        assert(q0 < b) by (nonlinear_arith)
            requires
                cur2 == dd * q0 + r0,
                cur2 < dd * b,
                r0 >= 0,
                dd > 0,
        ;
        assert(q1 * b + q0 < b * b) by (nonlinear_arith)
            requires
                q1 < b,
                q0 < b,
        ;
    }
    let q_lo = q1 * b + q0;
    proof {
        let h = half_base() as int;
        assert(h == b * b);
        let (vh, vl, qh, ql, dq) = (v.hi as int, v.lo as int, q_hi as int, q_lo as int, dd as int);
        assert(vh * h + vl == (qh * h + ql) * dq + r0) by (nonlinear_arith)
            requires
                vh == dq * qh + r1,
                vl == b * l1 + l0,
                cur1 == r1 * b + l1,
                cur1 == dq * q1 + r2,
                cur2 == r2 * b + l0,
                cur2 == dq * q0 + r0,
                ql == q1 * b + q0,
                h == b * b,
        ;
    }
    (U256 { hi: q_hi, lo: q_lo }, r0 as u64)
}

/// The larger of two numbers.
pub open spec fn max_nat(a: nat, b: nat) -> nat {
    if a < b {
        b
    } else {
        a
    }
}

/// The `u128` spelt by the 16 bytes of `s` that start at `start`.
pub open spec fn be_u128_at(s: Seq<u8>, start: int) -> u128 {
    be_nat(s.subrange(start, start + 16)) as u128
}

/// The 32-byte word of `s` that starts at `start`.
pub open spec fn word_at(s: Seq<u8>, start: int) -> U256 {
    U256 { hi: be_u128_at(s, start), lo: be_u128_at(s, start + 16) }
}

/// Reads 16 bytes big-endian.
fn read_u128(b: &[u8], start: usize) -> (r: u128)
    requires
        start + 16 <= b@.len(),
    ensures
        r as nat == be_nat(b@.subrange(start as int, start + 16)),
        r == be_u128_at(b@, start as int),
{
    let _n = b.len();
    let end: usize = start + 16;
    let mut acc: u128 = 0;
    let mut i: usize = start;
    while i < end
        invariant
            end == start + 16,
            start <= i <= start + 16,
            start + 16 <= b@.len(),
            acc as nat == be_nat(b@.subrange(start as int, i as int)),
        decreases start + 16 - i,
    {
        proof {
            let s = b@.subrange(start as int, i as int);
            lemma_be_nat_bound(s);
            lemma_pow256_mono(s.len(), 15);
            assert(pow256(16) == 256 * pow256(15));
            lemma_pow256_16();
            let a = acc as nat;
            let p = pow256(15);
            assert(a * 256 + 255 < half_base()) by (nonlinear_arith)
                requires
                    a < p,
                    256 * p == half_base(),
            ;
            let s2 = b@.subrange(start as int, i + 1);
            assert(s2.drop_last() =~= s);
        }
        acc = acc * 256 + b[i] as u128;
        i = i + 1;
    }
    proof {
        let s = b@.subrange(start as int, start + 16);
        lemma_be_nat_bound(s);
        lemma_pow256_16();
    }
    acc
}

/// Reads the 32-byte word at `start`.
pub fn read_word(b: &[u8], start: usize) -> (r: U256)
    requires
        start + 32 <= b@.len(),
    ensures
        r == word_at(b@, start as int),
{
    let _n = b.len();
    U256 { hi: read_u128(b, start), lo: read_u128(b, start + 16) }
}

/// A 20-byte account address.
#[derive(Clone, Debug, PartialEq, Eq)]
pub struct Address {
    pub bytes: Vec<u8>,
}

impl Address {
    /// An address is 20 bytes long.
    pub open spec fn wf(&self) -> bool {
        self.bytes@.len() == 20
    }

    /// The all-zero address.
    pub fn zero() -> (r: Address)
        ensures
            r.wf(),
            r.bytes@ == Seq::new(20, |i: int| 0u8),
    {
        let mut v: Vec<u8> = Vec::new();
        while v.len() < 20
            invariant
                v@.len() <= 20,
                forall|i: int| 0 <= i < v@.len() ==> v@[i] == 0u8,
            decreases 20 - v@.len(),
        {
            v.push(0);
        }
        proof {
            assert(v@ =~= Seq::new(20, |i: int| 0u8));
        }
        Address { bytes: v }
    }
}

/// The bytes `s[from..to]`, copied.
pub fn copy_range(s: &[u8], from: usize, to: usize) -> (r: Vec<u8>)
    requires
        from <= to <= s@.len(),
    ensures
        r@ == s@.subrange(from as int, to as int),
{
    let mut v: Vec<u8> = Vec::new();
    let mut i: usize = from;
    while i < to
        invariant
            from <= i <= to <= s@.len(),
            v@ == s@.subrange(from as int, i as int),
        decreases to - i,
    {
        v.push(s[i]);
        i = i + 1;
        proof {
            assert(v@ =~= s@.subrange(from as int, i as int));
        }
    }
    v
}

} // verus!
