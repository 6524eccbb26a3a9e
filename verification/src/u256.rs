//! Unsigned 256-bit integers, stored as two 128-bit limbs.
//!
//! Account nonces, balances, gas amounts and transferred values are 256-bit
//! quantities.  The mathematical value of a limb pair is its view.

use vstd::prelude::*;
use vstd::arithmetic::div_mod::{lemma_fundamental_div_mod, lemma_fundamental_div_mod_converse};

use crate::bytes::{
    be_val, lemma_be_val_bound, lemma_be_val_concat, lemma_be_val_single, lemma_pow256_monotone,
    min_be, pow256,
};

verus! {

/// A 256-bit unsigned integer: `value == hi * 2^128 + lo`.
#[derive(Clone, Copy, Debug, PartialEq, Eq, Structural)]
pub struct U256 {
    pub hi: u128,
    pub lo: u128,
}

/// 2^128, the weight of the high limb.
pub open spec fn limb_base() -> nat {
    0x1_0000_0000_0000_0000_0000_0000_0000_0000nat
}

/// 2^256, the first value that does not fit.
pub open spec fn u256_bound() -> nat {
    0x1_0000_0000_0000_0000_0000_0000_0000_0000_0000_0000_0000_0000_0000_0000_0000_0000nat
}

impl View for U256 {
    type V = nat;

    open spec fn view(&self) -> nat {
        (self.hi * limb_base() + self.lo) as nat
    }
}

/// Two limb pairs denote the same value only when they are the same pair.
pub proof fn lemma_view_injective(a: U256, b: U256)
    ensures
        (a@ == b@) <==> (a == b),
{
    if a@ == b@ {
        assert(a.hi == b.hi && a.lo == b.lo) by (nonlinear_arith)
            requires
                a.hi * limb_base() + a.lo == b.hi * limb_base() + b.lo,
                a.lo < limb_base(),
                b.lo < limb_base(),
        ;
    }
}

/// Every representable value is below 2^256.
pub proof fn lemma_view_bound(a: U256)
    ensures
        a@ < u256_bound(),
{
    assert(a.hi * limb_base() + a.lo < u256_bound()) by (nonlinear_arith)
        requires
            a.hi < limb_base(),
            a.lo < limb_base(),
    ;
}

impl U256 {
    pub fn zero() -> (r: U256)
        ensures
            r@ == 0,
    {
        U256 { hi: 0, lo: 0 }
    }

    pub fn one() -> (r: U256)
        ensures
            r@ == 1,
    {
        U256 { hi: 0, lo: 1 }
    }

    pub fn max_value() -> (r: U256)
        ensures
            r@ == u256_bound() - 1,
    {
        U256 { hi: u128::MAX, lo: u128::MAX }
    }

    pub fn from_u64(n: u64) -> (r: U256)
        ensures
            r@ == n,
    {
        U256 { hi: 0, lo: n as u128 }
    }

    pub fn from_u128(n: u128) -> (r: U256)
        ensures
            r@ == n,
    {
        U256 { hi: 0, lo: n }
    }

    pub fn is_zero(&self) -> (r: bool)
        ensures
            r == (self@ == 0),
    {
        proof {
            if self.hi == 0 && self.lo == 0 {
                assert(self@ == 0);
            } else {
                lemma_view_injective(*self, U256 { hi: 0, lo: 0 });
            }
        }
        self.hi == 0 && self.lo == 0
    }

    pub fn eq_val(&self, other: &U256) -> (r: bool)
        ensures
            r == (self@ == other@),
    {
        proof {
            lemma_view_injective(*self, *other);
        }
        self.hi == other.hi && self.lo == other.lo
    }

    pub fn lt(&self, other: &U256) -> (r: bool)
        ensures
            r == (self@ < other@),
    {
        let r = self.hi < other.hi || (self.hi == other.hi && self.lo < other.lo);
        proof {
            assert(r == (self@ < other@)) by (nonlinear_arith)
                requires
                    r == (self.hi < other.hi || (self.hi == other.hi && self.lo < other.lo)),
                    self.lo < limb_base(),
                    other.lo < limb_base(),
                    self@ == self.hi * limb_base() + self.lo,
                    other@ == other.hi * limb_base() + other.lo,
            ;
        }
        r
    }

    pub fn le(&self, other: &U256) -> (r: bool)
        ensures
            r == (self@ <= other@),
    {
        !other.lt(self)
    }

    pub fn checked_add(&self, other: &U256) -> (r: Option<U256>)
        ensures
            self@ + other@ < u256_bound() ==> (r matches Some(s) && s@ == self@ + other@),
            self@ + other@ >= u256_bound() ==> r is None,
    {
        let (lo_sum, carry): (u128, u128) = if self.lo <= u128::MAX - other.lo {
            (self.lo + other.lo, 0)
        } else {
            (self.lo - (u128::MAX - other.lo) - 1, 1)
        };
        assert(lo_sum + carry * limb_base() == self.lo + other.lo);
        match self.hi.checked_add(other.hi) {
            None => {
                proof {
                    assert(self@ + other@ >= u256_bound()) by (nonlinear_arith)
                        requires
                            self.hi + other.hi > u128::MAX,
                            self@ == self.hi * limb_base() + self.lo,
                            other@ == other.hi * limb_base() + other.lo,
                    ;
                }
                None
            },
            Some(h) => match h.checked_add(carry) {
                None => {
                    proof {
                        assert(self@ + other@ >= u256_bound()) by (nonlinear_arith)
                            requires
                                self.hi + other.hi + carry > u128::MAX,
                                carry <= 1,
                                self@ == self.hi * limb_base() + self.lo,
                                other@ == other.hi * limb_base() + other.lo,
                                self.lo + other.lo == lo_sum + carry * limb_base(),
                                lo_sum >= 0,
                        ;
                    }
                    None
                },
                Some(h2) => {
                    let r = U256 { hi: h2, lo: lo_sum };
                    proof {
                        assert(r@ == self@ + other@) by (nonlinear_arith)
                            requires
                                h2 == self.hi + other.hi + carry,
                                self.lo + other.lo == lo_sum + carry * limb_base(),
                                r@ == h2 * limb_base() + lo_sum,
                                self@ == self.hi * limb_base() + self.lo,
                                other@ == other.hi * limb_base() + other.lo,
                        ;
                        lemma_view_bound(r);
                    }
                    Some(r)
                },
            },
        }
    }

    pub fn checked_sub(&self, other: &U256) -> (r: Option<U256>)
        ensures
            self@ >= other@ ==> (r matches Some(s) && s@ == self@ - other@),
            self@ < other@ ==> r is None,
    {
        let ge = other.le(self);
        if !ge {
            return None;
        }
        let (lo_diff, borrow): (u128, u128) = if self.lo >= other.lo {
            (self.lo - other.lo, 0)
        } else {
            (u128::MAX - other.lo + self.lo + 1, 1)
        };
        assert(lo_diff == self.lo + borrow * limb_base() - other.lo);
        proof {
            assert(self.hi >= other.hi + borrow) by (nonlinear_arith)
                requires
                    self.hi * limb_base() + self.lo >= other.hi * limb_base() + other.lo,
                    self.lo < limb_base(),
                    other.lo < limb_base(),
                    borrow == 1 ==> self.lo < other.lo,
                    borrow <= 1,
            ;
        }
        let hi_diff = self.hi - other.hi - borrow;
        let r = U256 { hi: hi_diff, lo: lo_diff };
        proof {
            assert(r@ == self@ - other@) by (nonlinear_arith)
                requires
                    hi_diff == self.hi - other.hi - borrow,
                    lo_diff == self.lo + borrow * limb_base() - other.lo,
                    r@ == hi_diff * limb_base() + lo_diff,
                    self@ == self.hi * limb_base() + self.lo,
                    other@ == other.hi * limb_base() + other.lo,
            ;
        }
        Some(r)
    }

    pub fn checked_mul(&self, other: &U256) -> (r: Option<U256>)
        ensures
            self@ * other@ < u256_bound() ==> (r matches Some(s) && s@ == self@ * other@),
            self@ * other@ >= u256_bound() ==> r is None,
    {
        let a = *self;
        let b = *other;
        if a.hi != 0 && b.hi != 0 {
            proof {
                assert(a@ * b@ >= u256_bound()) by (nonlinear_arith)
                    requires
                        a.hi >= 1,
                        b.hi >= 1,
                        a@ == a.hi * limb_base() + a.lo,
                        b@ == b.hi * limb_base() + b.lo,
                ;
            }
            return None;
        }
        let m1 = match a.hi.checked_mul(b.lo) {
            Some(m) => m,
            None => {
                proof {
                    assert(a@ * b@ >= u256_bound()) by (nonlinear_arith)
                        requires
                            a.hi * b.lo > u128::MAX,
                            a@ == a.hi * limb_base() + a.lo,
                            b@ == b.hi * limb_base() + b.lo,
                    ;
                }
                return None;
            },
        };
        let m2 = match a.lo.checked_mul(b.hi) {
            Some(m) => m,
            None => {
                proof {
                    assert(a@ * b@ >= u256_bound()) by (nonlinear_arith)
                        requires
                            a.lo * b.hi > u128::MAX,
                            a@ == a.hi * limb_base() + a.lo,
                            b@ == b.hi * limb_base() + b.lo,
                    ;
                }
                return None;
            },
        };
        let low = mul_wide_u128(a.lo, b.lo);
        proof {
            assert(a.hi * b.hi == 0);
            assert(a@ * b@ == (a.hi * b.lo + a.lo * b.hi) * limb_base() + a.lo * b.lo)
                by (nonlinear_arith)
                requires
                    a@ == a.hi * limb_base() + a.lo,
                    b@ == b.hi * limb_base() + b.lo,
                    a.hi * b.hi == 0,
            ;
            assert(a@ * b@ == (m1 + m2) * limb_base() + low@);
        }
        let hi1 = match low.hi.checked_add(m1) {
            Some(h) => h,
            None => {
                proof {
                    overflow_sum_bound(a@, b@, low, m1 as nat + m2 as nat);
                }
                return None;
            },
        };
        let hi2 = match hi1.checked_add(m2) {
            Some(h) => h,
            None => {
                proof {
                    overflow_sum_bound(a@, b@, low, m1 as nat + m2 as nat);
                }
                return None;
            },
        };
        let r = U256 { hi: hi2, lo: low.lo };
        proof {
            assert(r@ == a@ * b@) by (nonlinear_arith)
                requires
                    a@ * b@ == (m1 + m2) * limb_base() + a.lo * b.lo,
                    low@ == a.lo * b.lo,
                    low@ == low.hi * limb_base() + low.lo,
                    hi2 == low.hi + m1 + m2,
                    r@ == hi2 * limb_base() + low.lo,
            ;
            lemma_view_bound(r);
        }
        Some(r)
    }

    /// Multiplication that clamps to the largest representable value,
    /// as the admission fee computation does.
    pub fn saturating_mul(&self, other: &U256) -> (r: U256)
        ensures
            self@ * other@ < u256_bound() ==> r@ == self@ * other@,
            self@ * other@ >= u256_bound() ==> r@ == u256_bound() - 1,
    {
        match self.checked_mul(other) {
            Some(r) => r,
            None => U256::max_value(),
        }
    }
}

/// When the accumulated high limb exceeds the limb range, the full
/// product lies outside the 256-bit range.
proof fn overflow_sum_bound(av: nat, bv: nat, low: U256, mid: nat)
    requires
        av * bv == mid * limb_base() + low@,
        low.hi + mid > u128::MAX,
    ensures
        av * bv >= u256_bound(),
{
    assert(av * bv >= u256_bound()) by (nonlinear_arith)
        requires
            av * bv == mid * limb_base() + low.hi * limb_base() + low.lo,
            low.hi + mid > u128::MAX,
    ;
}

/// Full 128x128 -> 256 bit multiplication; never overflows.
pub fn mul_wide_u128(a: u128, b: u128) -> (r: U256)
    ensures
        r@ == a * b,
{
    let s: u128 = 0x1_0000_0000_0000_0000;
    let a0 = a % s;
    let a1 = a / s;
    let b0 = b % s;
    let b1 = b / s;
    proof {
        assert(a0 * b0 <= u128::MAX && a0 * b1 <= u128::MAX && a1 * b0 <= u128::MAX && a1 * b1
            <= u128::MAX) by (nonlinear_arith)
            requires
                a0 < s,
                a1 < s,
                b0 < s,
                b1 < s,
                s == 0x1_0000_0000_0000_0000,
        ;
    }
    let p00 = a0 * b0;
    let p01 = a0 * b1;
    let p10 = a1 * b0;
    let p11 = a1 * b1;
    proof {
        assert(p00 <= (s - 1) * (s - 1) && p01 <= (s - 1) * (s - 1) && p10 <= (s - 1) * (s - 1)
            && p11 <= (s - 1) * (s - 1)) by (nonlinear_arith)
            requires
                p00 == a0 * b0,
                p01 == a0 * b1,
                p10 == a1 * b0,
                p11 == a1 * b1,
                a0 < s,
                a1 < s,
                b0 < s,
                b1 < s,
                s == 0x1_0000_0000_0000_0000,
        ;
        assert(p00 / s <= s - 2 && p01 / s <= s - 2 && p10 / s <= s - 2) by (nonlinear_arith)
            requires
                p00 <= (s - 1) * (s - 1),
                p01 <= (s - 1) * (s - 1),
                p10 <= (s - 1) * (s - 1),
                s == 0x1_0000_0000_0000_0000,
        ;
    }
    let mid = p00 / s + p01 % s + p10 % s;
    proof {
        assert(mid / s <= 2) by (nonlinear_arith)
            requires
                mid <= 3 * s - 4,
                s == 0x1_0000_0000_0000_0000,
        ;
        assert((mid % s) * s + p00 % s <= u128::MAX && p11 + p01 / s + p10 / s + mid / s
            <= u128::MAX) by (nonlinear_arith)
            requires
                mid % s <= s - 1,
                p00 % s <= s - 1,
                mid / s <= 2,
                p01 / s <= s - 2,
                p10 / s <= s - 2,
                p11 <= (s - 1) * (s - 1),
                s == 0x1_0000_0000_0000_0000,
        ;
    }
    let lo = (mid % s) * s + p00 % s;
    let hi = p11 + p01 / s + p10 / s + mid / s;
    let r = U256 { hi, lo };
    proof {
        assert(a * b == p11 * s * s + (p01 + p10) * s + p00) by (nonlinear_arith)
            requires
                a == a1 * s + a0,
                b == b1 * s + b0,
                p00 == a0 * b0,
                p01 == a0 * b1,
                p10 == a1 * b0,
                p11 == a1 * b1,
        ;
        assert(hi * (s * s) + lo == p11 * s * s + (p01 + p10) * s + p00) by (nonlinear_arith)
            requires
                s == 0x1_0000_0000_0000_0000,
                mid == p00 / s + p01 % s + p10 % s,
                lo == (mid % s) * s + p00 % s,
                hi == p11 + p01 / s + p10 / s + mid / s,
                p00 == (p00 / s) * s + p00 % s,
                p01 == (p01 / s) * s + p01 % s,
                p10 == (p10 / s) * s + p10 % s,
                mid == (mid / s) * s + mid % s,
        ;
        assert(limb_base() == s * s) by (nonlinear_arith)
            requires
                s == 0x1_0000_0000_0000_0000,
        ;
        assert(r@ == hi * (s * s) + lo);
    }
    r
}

/// 256^32 is exactly the first value out of the 256-bit range.
pub proof fn lemma_pow256_32()
    ensures
        pow256(32) == u256_bound(),
{
    reveal_with_fuel(pow256, 33);
}

impl U256 {
    /// Split off the lowest byte: quotient and remainder by 256.
    pub fn divmod256(&self) -> (r: (U256, u8))
        ensures
            r.0@ == self@ / 256,
            r.1 == self@ % 256,
    {
        let p120: u128 = 0x1_000000_000000_000000_000000_000000;
        let q = U256 { hi: self.hi / 256, lo: self.lo / 256 + (self.hi % 256) * p120 };
        let rm = (self.lo % 256) as u8;
        proof {
            lemma_fundamental_div_mod(self.hi as int, 256);
            lemma_fundamental_div_mod(self.lo as int, 256);
            assert(self@ == q@ * 256 + rm) by (nonlinear_arith)
                requires
                    p120 == 0x1_000000_000000_000000_000000_000000,
                    self.hi == 256 * (self.hi as int / 256) + self.hi as int % 256,
                    self.lo == 256 * (self.lo as int / 256) + self.lo as int % 256,
                    q.hi == self.hi as int / 256,
                    q.lo == self.lo as int / 256 + (self.hi as int % 256) * (p120 as int),
                    rm == self.lo as int % 256,
                    self@ == self.hi * limb_base() + self.lo,
                    q@ == q.hi * limb_base() + q.lo,
            ;
            lemma_fundamental_div_mod_converse(self@ as int, 256, q@ as int, rm as int);
        }
        (q, rm)
    }

    /// The shortest big-endian encoding of the value.
    pub fn to_min_be_bytes(&self) -> (r: Vec<u8>)
        ensures
            r@ == min_be(self@),
    {
        let mut out: Vec<u8> = Vec::new();
        let mut cur: U256 = *self;
        while cur.hi != 0 || cur.lo != 0
            invariant
                min_be(self@) == min_be(cur@) + out@,
            decreases cur@,
        {
            let (q, rm) = cur.divmod256();
            proof {
                assert(cur@ != 0);
                assert(min_be(cur@) == min_be(cur@ / 256).push((cur@ % 256) as u8));
                assert(min_be(q@).push(rm) + out@ =~= min_be(q@) + (seq![rm] + out@));
                assert(q@ < cur@) by (nonlinear_arith)
                    requires
                        q@ == cur@ / 256,
                        cur@ >= 1,
                ;
            }
            let ghost out_before = out@;
            out.insert(0, rm);
            proof {
                assert(out@ =~= seq![rm] + out_before);
            }
            cur = q;
        }
        proof {
            assert(cur@ == 0);
            assert(min_be(self@) =~= out@);
        }
        out
    }

    /// The 32-byte big-endian encoding of the value.
    pub fn to_be_bytes32(&self) -> (r: Vec<u8>)
        ensures
            r@.len() == 32,
            be_val(r@) == self@,
    {
        let mut out: Vec<u8> = Vec::new();
        let mut cur: U256 = *self;
        let mut i: usize = 0;
        proof {
            assert(pow256(0) == 1);
            assert(be_val(Seq::<u8>::empty()) == 0);
            assert(out@ =~= Seq::<u8>::empty());
        }
        while i < 32
            invariant
                i <= 32,
                out@.len() == i,
                self@ == cur@ * pow256(i as nat) + be_val(out@),
            decreases 32 - i,
        {
            let (q, rm) = cur.divmod256();
            proof {
                lemma_be_val_single(rm);
                lemma_be_val_concat(seq![rm], out@);
                lemma_fundamental_div_mod(cur@ as int, 256);
                assert(cur@ == q@ * 256 + rm);
                assert(q@ * pow256((i + 1) as nat) + (rm * pow256(i as nat) + be_val(out@))
                    == (q@ * 256 + rm) * pow256(i as nat) + be_val(out@)) by (nonlinear_arith)
                    requires
                        pow256((i + 1) as nat) == 256 * pow256(i as nat),
                ;
            }
            let ghost out_before = out@;
            out.insert(0, rm);
            proof {
                assert(out@ =~= seq![rm] + out_before);
            }
            cur = q;
            i += 1;
        }
        proof {
            lemma_pow256_32();
            lemma_view_bound(cur);
            assert(cur@ == 0) by (nonlinear_arith)
                requires
                    self@ == cur@ * pow256(32) + be_val(out@),
                    self@ < u256_bound(),
                    pow256(32) == u256_bound(),
            ;
        }
        out
    }

    /// Add a low byte to a value shifted left by one byte.
    fn shl8_add(&self, d: u8) -> (r: U256)
        requires
            self@ * 256 + d < u256_bound(),
        ensures
            r@ == self@ * 256 + d,
    {
        let p120: u128 = 0x1_000000_000000_000000_000000_000000;
        proof {
            assert(self.hi < p120) by (nonlinear_arith)
                requires
                    p120 == 0x1_000000_000000_000000_000000_000000,
                    self@ * 256 + d < u256_bound(),
                    self@ == self.hi * limb_base() + self.lo,
                    d >= 0,
            ;
            lemma_fundamental_div_mod(self.lo as int, p120 as int);
        }
        let new_hi = self.hi * 256 + self.lo / p120;
        let new_lo = (self.lo % p120) * 256 + (d as u128);
        let r = U256 { hi: new_hi, lo: new_lo };
        proof {
            assert(r@ == self@ * 256 + d) by (nonlinear_arith)
                requires
                    p120 == 0x1_000000_000000_000000_000000_000000,
                    self.lo == (p120 as int) * (self.lo as int / (p120 as int)) + self.lo as int % (p120 as int),
                    new_hi == self.hi * 256 + self.lo as int / (p120 as int),
                    new_lo == (self.lo as int % (p120 as int)) * 256 + d,
                    r@ == new_hi * limb_base() + new_lo,
                    self@ == self.hi * limb_base() + self.lo,
            ;
        }
        r
    }

    /// The value denoted by a big-endian byte string of at most 32 bytes.
    pub fn from_be_bytes(b: &Vec<u8>) -> (r: U256)
        requires
            b@.len() <= 32,
        ensures
            r@ == be_val(b@),
    {
        let mut acc = U256::zero();
        let mut i: usize = 0;
        proof {
            assert(b@.subrange(0, 0) =~= Seq::<u8>::empty());
        }
        while i < b.len()
            invariant
                i <= b@.len() <= 32,
                acc@ == be_val(b@.subrange(0, i as int)),
            decreases b@.len() - i,
        {
            proof {
                lemma_be_val_bound(b@.subrange(0, i as int));
                lemma_pow256_monotone(i as nat, 31);
                lemma_pow256_32();
                assert(pow256(32) == 256 * pow256(31));
                assert(acc@ * 256 + b@[i as int] < u256_bound()) by (nonlinear_arith)
                    requires
                        acc@ < pow256(i as nat),
                        pow256(i as nat) <= pow256(31),
                        256 * pow256(31) == u256_bound(),
                        b@[i as int] < 256,
                ;
            }
            let acc2 = acc.shl8_add(b[i]);
            proof {
                assert(b@.subrange(0, i + 1).drop_last() =~= b@.subrange(0, i as int));
            }
            acc = acc2;
            i += 1;
        }
        proof {
            assert(b@.subrange(0, b@.len() as int) =~= b@);
        }
        acc
    }
}

} // verus!
