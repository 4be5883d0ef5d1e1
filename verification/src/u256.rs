//! Unsigned 256-bit amounts, held as two 128-bit limbs.
use vstd::prelude::*;

verus! {

/// The weight of the high limb: 2^128.
pub open spec fn limb_base() -> nat {
    0x1_0000_0000_0000_0000_0000_0000_0000_0000nat
}

/// The largest amount a `U256` can hold: 2^256 - 1.
pub open spec fn u256_max() -> nat {
    (limb_base() * limb_base() - 1) as nat
}

/// An unsigned 256-bit integer. Its view is the number it stands for.
#[derive(Clone, Copy, Debug, PartialEq, Eq, Structural)]
pub struct U256 {
    hi: u128,
    lo: u128,
}

impl View for U256 {
    type V = nat;

    closed spec fn view(&self) -> nat {
        self.hi as nat * limb_base() + self.lo as nat
    }
}

/// The `U256` that stands for `n` (meaningful for `n <= u256_max()`).
pub closed spec fn u256_from_nat(n: nat) -> U256 {
    U256 { hi: (n / limb_base()) as u128, lo: (n % limb_base()) as u128 }
}

proof fn lemma_limbs_order(h1: nat, l1: nat, h2: nat, l2: nat)
    requires
        h1 < h2,
        l1 < limb_base(),
    ensures
        h1 * limb_base() + l1 < h2 * limb_base() + l2,
{
    assert(h1 * limb_base() + l1 < h2 * limb_base() + l2) by (nonlinear_arith)
        requires
            h1 < h2,
            l1 < limb_base(),
            limb_base() > 0,
    ;
}

/// Every `U256` stands for a number in `0..=u256_max()`.
pub proof fn lemma_u256_range(x: U256)
    ensures
        x@ <= u256_max(),
{
    let b = limb_base();
    assert(x.hi as nat * b + x.lo as nat <= (b - 1) * b + (b - 1)) by (nonlinear_arith)
        requires
            x.hi < b,
            x.lo < b,
            b > 0,
    ;
    assert((b - 1) * b + (b - 1) == b * b - 1) by (nonlinear_arith);
}

/// Two `U256` values that stand for the same number are the same value.
pub proof fn lemma_u256_view_injective(x: U256, y: U256)
    requires
        x@ == y@,
    ensures
        x == y,
{
    if x.hi < y.hi {
        lemma_limbs_order(x.hi as nat, x.lo as nat, y.hi as nat, y.lo as nat);
    } else if y.hi < x.hi {
        lemma_limbs_order(y.hi as nat, y.lo as nat, x.hi as nat, x.lo as nat);
    }
}

/// `u256_from_nat` gives back the number it was made from.
pub proof fn lemma_u256_from_nat(n: nat)
    requires
        n <= u256_max(),
    ensures
        u256_from_nat(n)@ == n,
{
    let b = limb_base();
    vstd::arithmetic::div_mod::lemma_fundamental_div_mod(n as int, b as int);
    assert(n / b < b) by (nonlinear_arith)
        requires
            n <= b * b - 1,
            b > 0,
    ;
    assert(n % b < b) by (nonlinear_arith)
        requires
            b > 0,
    ;
    assert((n / b) * b == b * (n / b)) by (nonlinear_arith);
}

/// Every `U256` is the one `u256_from_nat` makes from its number.
pub proof fn lemma_u256_from_view(x: U256)
    ensures
        u256_from_nat(x@) == x,
{
    lemma_u256_range(x);
    lemma_u256_from_nat(x@);
    lemma_u256_view_injective(u256_from_nat(x@), x);
}

impl U256 {
    /// The amount zero.
    pub fn zero() -> (r: U256)
        ensures
            r@ == 0,
    {
        U256 { hi: 0, lo: 0 }
    }

    /// The largest amount, 2^256 - 1.
    pub fn max_value() -> (r: U256)
        ensures
            r@ == u256_max(),
    {
        let r = U256 { hi: u128::MAX, lo: u128::MAX };
        assert(r@ == u256_max()) by (nonlinear_arith)
            requires
                r.hi as nat == limb_base() - 1,
                r.lo as nat == limb_base() - 1,
                r@ == r.hi as nat * limb_base() + r.lo as nat,
        ;
        r
    }

    /// The amount `v`.
    pub fn from_u128(v: u128) -> (r: U256)
        ensures
            r@ == v as nat,
    {
        U256 { hi: 0, lo: v }
    }

    /// The amount `hi * 2^128 + lo`.
    pub fn from_parts(hi: u128, lo: u128) -> (r: U256)
        ensures
            r@ == hi as nat * limb_base() + lo as nat,
    {
        U256 { hi, lo }
    }

    /// The high 128 bits.
    pub fn high(&self) -> (r: u128)
        ensures
            r as nat == self@ / limb_base(),
    {
        proof {
            lemma_u256_from_view(*self);
        }
        self.hi
    }

    /// The low 128 bits.
    pub fn low(&self) -> (r: u128)
        ensures
            r as nat == self@ % limb_base(),
    {
        proof {
            lemma_u256_from_view(*self);
        }
        self.lo
    }

    /// Whether the amount is zero.
    pub fn is_zero(&self) -> (r: bool)
        ensures
            r == (self@ == 0),
    {
        proof {
            if self.hi > 0 {
                lemma_limbs_order(0, 0, self.hi as nat, self.lo as nat);
            }
        }
        self.hi == 0 && self.lo == 0
    }

    /// Whether `self` is strictly smaller than `other`.
    pub fn less_than(&self, other: &U256) -> (r: bool)
        ensures
            r == (self@ < other@),
    {
        proof {
            if self.hi < other.hi {
                lemma_limbs_order(self.hi as nat, self.lo as nat, other.hi as nat, other.lo as nat);
            } else if other.hi < self.hi {
                lemma_limbs_order(other.hi as nat, other.lo as nat, self.hi as nat, self.lo as nat);
            }
        }
        self.hi < other.hi || (self.hi == other.hi && self.lo < other.lo)
    }

    /// The sum, or `None` where it does not fit in 256 bits.
    pub fn checked_add(&self, other: &U256) -> (r: Option<U256>)
        ensures
            match r {
                Some(s) => s@ == self@ + other@,
                None => self@ + other@ > u256_max(),
            },
    {
        let b = Ghost(limb_base());
        let lo: u128;
        let carry: u128;
        if self.lo <= u128::MAX - other.lo {
            lo = self.lo + other.lo;
            carry = 0;
        } else {
            lo = self.lo - (u128::MAX - other.lo) - 1;
            carry = 1;
        }
        assert(lo as nat + carry as nat * b@ == self.lo as nat + other.lo as nat);
        if self.hi <= u128::MAX - other.hi && self.hi + other.hi <= u128::MAX - carry {
            let hi = self.hi + other.hi + carry;
            let r = U256 { hi, lo };
            assert(r@ == self@ + other@) by (nonlinear_arith)
                requires
                    hi as nat == self.hi as nat + other.hi as nat + carry as nat,
                    lo as nat + carry as nat * b@ == self.lo as nat + other.lo as nat,
                    r@ == hi as nat * b@ + lo as nat,
                    self@ == self.hi as nat * b@ + self.lo as nat,
                    other@ == other.hi as nat * b@ + other.lo as nat,
            ;
            Some(r)
        } else {
            assert(self@ + other@ > u256_max()) by (nonlinear_arith)
                requires
                    self.hi as nat + other.hi as nat + carry as nat >= b@,
                    lo as nat + carry as nat * b@ == self.lo as nat + other.lo as nat,
                    self@ == self.hi as nat * b@ + self.lo as nat,
                    other@ == other.hi as nat * b@ + other.lo as nat,
                    u256_max() == b@ * b@ - 1,
            ;
            None
        }
    }

    /// The difference `self - other`, for `other <= self`.
    pub fn sub(&self, other: &U256) -> (r: U256)
        requires
            other@ <= self@,
        ensures
            r@ == self@ - other@,
    {
        let b = Ghost(limb_base());
        let lo: u128;
        let borrow: u128;
        if self.lo >= other.lo {
            lo = self.lo - other.lo;
            borrow = 0;
        } else {
            lo = u128::MAX - (other.lo - self.lo) + 1;
            borrow = 1;
        }
        assert(self.lo as nat + borrow as nat * b@ == lo as nat + other.lo as nat);
        proof {
            if self.hi < other.hi + borrow {
                if self.hi < other.hi {
                    lemma_limbs_order(
                        self.hi as nat,
                        self.lo as nat,
                        other.hi as nat,
                        other.lo as nat,
                    );
                }
            }
        }
        let hi = self.hi - other.hi - borrow;
        let r = U256 { hi, lo };
        assert(r@ == self@ - other@) by (nonlinear_arith)
            requires
                hi as nat + other.hi as nat + borrow as nat == self.hi as nat,
                self.lo as nat + borrow as nat * b@ == lo as nat + other.lo as nat,
                r@ == hi as nat * b@ + lo as nat,
                self@ == self.hi as nat * b@ + self.lo as nat,
                other@ == other.hi as nat * b@ + other.lo as nat,
        ;
        r
    }
}

} // verus!
