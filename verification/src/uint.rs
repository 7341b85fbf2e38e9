//! Unsigned 256-bit and 512-bit integers, held as 64-bit limbs, least
//! significant first. Arithmetic and ordering are delegated to `ruint`.

use vstd::prelude::*;

verus! {

/// Two to the power 256: one more than the largest value.
pub open spec fn pow2_256() -> nat {
    0x1_0000_0000_0000_0000_0000_0000_0000_0000_0000_0000_0000_0000_0000_0000_0000_0000nat
}

/// An unsigned 256-bit integer.
#[derive(Clone, Copy, Debug, PartialEq, Eq, Hash, Structural)]
pub struct U256 {
    pub l0: u64,
    pub l1: u64,
    pub l2: u64,
    pub l3: u64,
}

impl View for U256 {
    type V = nat;

    /// The number that the four limbs stand for.
    open spec fn view(&self) -> nat {
        self.l0 as nat + self.l1 as nat * 0x1_0000_0000_0000_0000nat + self.l2 as nat
            * 0x1_0000_0000_0000_0000_0000_0000_0000_0000nat + self.l3 as nat
            * 0x1_0000_0000_0000_0000_0000_0000_0000_0000_0000_0000_0000_0000nat
    }
}

impl U256 {
    /// The value zero.
    pub fn zero() -> (r: U256)
        ensures
            r@ == 0,
            r == (U256 { l0: 0, l1: 0, l2: 0, l3: 0 }),
    {
        U256 { l0: 0, l1: 0, l2: 0, l3: 0 }
    }

    /// Parses a number written in the given radix. The result is `None`
    /// exactly where the text is not a number in that radix that fits 256
    /// bits.
    pub fn from_str_radix(src: &str, radix: u64) -> (r: Option<U256>)
        ensures
            r is Some <==> radix_value(src@, radix) is Some,
            r matches Some(v) ==> radix_value(src@, radix) == Some(v@),
    {
        limbs_from_str_radix(src, radix)
    }

    /// Whether `self` is strictly smaller than `other`.
    pub fn lt(&self, other: &U256) -> (r: bool)
        ensures
            r == (self@ < other@),
    {
        limbs_lt(*self, *other)
    }

    /// The sum, or `None` where it does not fit 256 bits.
    pub fn checked_add(&self, other: &U256) -> (r: Option<U256>)
        ensures
            r is Some <==> self@ + other@ < pow2_256(),
            r matches Some(s) ==> s@ == self@ + other@,
    {
        limbs_checked_add(*self, *other)
    }

    /// The difference, or `None` where `other` is the larger.
    pub fn checked_sub(&self, other: &U256) -> (r: Option<U256>)
        ensures
            r is Some <==> other@ <= self@,
            r matches Some(s) ==> s@ == self@ - other@,
    {
        limbs_checked_sub(*self, *other)
    }

    /// The value of a 64-bit integer.
    pub fn from_u64(x: u64) -> (r: U256)
        ensures
            r@ == x,
            r == (U256 { l0: x, l1: 0, l2: 0, l3: 0 }),
    {
        U256 { l0: x, l1: 0, l2: 0, l3: 0 }
    }
}

/// Two to the power 512: one more than the largest 512-bit value.
pub open spec fn pow2_512() -> nat {
    pow2_256() * pow2_256()
}

/// An unsigned 512-bit integer, held as eight 64-bit limbs, least
/// significant first.
#[derive(Clone, Copy, Debug, PartialEq, Eq, Hash, Structural)]
pub struct U512 {
    pub l0: u64,
    pub l1: u64,
    pub l2: u64,
    pub l3: u64,
    pub l4: u64,
    pub l5: u64,
    pub l6: u64,
    pub l7: u64,
}

impl View for U512 {
    type V = nat;

    /// The number that the eight limbs stand for: the lower four limbs as a
    /// 256-bit number, and the upper four limbs two to the power 256 times
    /// theirs.
    open spec fn view(&self) -> nat {
        self.low()@ + self.high()@ * pow2_256()
    }
}

impl U512 {
    /// The lower 256 bits.
    pub open spec fn low(&self) -> U256 {
        U256 { l0: self.l0, l1: self.l1, l2: self.l2, l3: self.l3 }
    }

    /// The upper 256 bits.
    pub open spec fn high(&self) -> U256 {
        U256 { l0: self.l4, l1: self.l5, l2: self.l6, l3: self.l7 }
    }
}

/// The number that `ruint` reads from a text in a given radix, or `None`
/// where it reports a parse error.
pub uninterp spec fn radix_value(text: Seq<char>, radix: u64) -> Option<nat>;

/// `<` of `ruint::Uint<256, 4>`, on the same limbs: whether the first
/// number is the smaller.
#[verifier::external_body]
pub(crate) fn limbs_lt(a: U256, b: U256) -> (r: bool)
    ensures
        r == (a@ < b@),
{
    let x = ruint::aliases::U256::from_limbs([a.l0, a.l1, a.l2, a.l3]);
    let y = ruint::aliases::U256::from_limbs([b.l0, b.l1, b.l2, b.l3]);
    x < y
}

/// `ruint::Uint::checked_add`, on the same limbs: the sum, or `None` where
/// the sum does not fit 256 bits.
#[verifier::external_body]
pub(crate) fn limbs_checked_add(a: U256, b: U256) -> (r: Option<U256>)
    ensures
        r is Some <==> a@ + b@ < pow2_256(),
        r matches Some(s) ==> s@ == a@ + b@,
{
    let x = ruint::aliases::U256::from_limbs([a.l0, a.l1, a.l2, a.l3]);
    let y = ruint::aliases::U256::from_limbs([b.l0, b.l1, b.l2, b.l3]);
    match x.checked_add(y) {
        Some(s) => {
            let l = s.into_limbs();
            Some(U256 { l0: l[0], l1: l[1], l2: l[2], l3: l[3] })
        },
        None => None,
    }
}

/// `ruint::Uint::checked_sub`, on the same limbs: the difference, or `None`
/// where the second number is the larger.
#[verifier::external_body]
pub(crate) fn limbs_checked_sub(a: U256, b: U256) -> (r: Option<U256>)
    ensures
        r is Some <==> b@ <= a@,
        r matches Some(s) ==> s@ == a@ - b@,
{
    let x = ruint::aliases::U256::from_limbs([a.l0, a.l1, a.l2, a.l3]);
    let y = ruint::aliases::U256::from_limbs([b.l0, b.l1, b.l2, b.l3]);
    match x.checked_sub(y) {
        Some(s) => {
            let l = s.into_limbs();
            Some(U256 { l0: l[0], l1: l[1], l2: l[2], l3: l[3] })
        },
        None => None,
    }
}

/// `ruint::Uint::from_str_radix` for 256 bits: the limbs of the number it
/// parsed, or `None` where it returned an error.
#[verifier::external_body]
fn limbs_from_str_radix(src: &str, radix: u64) -> (r: Option<U256>)
    ensures
        r is Some <==> radix_value(src@, radix) is Some,
        r matches Some(v) ==> radix_value(src@, radix) == Some(v@),
{
    match ruint::aliases::U256::from_str_radix(src, radix) {
        Ok(v) => {
            let l = v.into_limbs();
            Some(U256 { l0: l[0], l1: l[1], l2: l[2], l3: l[3] })
        },
        Err(_) => None,
    }
}

/// The 256-bit integer that stands for a number below two to the power 256.
pub open spec fn u256_of(n: nat) -> U256 {
    let q1 = n / 0x1_0000_0000_0000_0000nat;
    let q2 = q1 / 0x1_0000_0000_0000_0000nat;
    let q3 = q2 / 0x1_0000_0000_0000_0000nat;
    U256 {
        l0: (n % 0x1_0000_0000_0000_0000nat) as u64,
        l1: (q1 % 0x1_0000_0000_0000_0000nat) as u64,
        l2: (q2 % 0x1_0000_0000_0000_0000nat) as u64,
        l3: (q3 % 0x1_0000_0000_0000_0000nat) as u64,
    }
}

/// `u256_of` gives back the number it was made from.
pub proof fn lemma_u256_of_view(n: nat)
    requires
        n < pow2_256(),
    ensures
        u256_of(n)@ == n,
{
    let q1 = n / 0x1_0000_0000_0000_0000nat;
    let q2 = q1 / 0x1_0000_0000_0000_0000nat;
    let q3 = q2 / 0x1_0000_0000_0000_0000nat;
    assert(n == (n % 0x1_0000_0000_0000_0000nat) + q1 * 0x1_0000_0000_0000_0000nat);
    assert(q1 == (q1 % 0x1_0000_0000_0000_0000nat) + q2 * 0x1_0000_0000_0000_0000nat);
    assert(q2 == (q2 % 0x1_0000_0000_0000_0000nat) + q3 * 0x1_0000_0000_0000_0000nat);
    assert(q3 < 0x1_0000_0000_0000_0000nat);
}

/// A 256-bit integer is the `u256_of` of the number it stands for.
pub proof fn lemma_u256_of_self(a: U256)
    ensures
        u256_of(a@) == a,
{
    lemma_view_bound(a);
    lemma_u256_of_view(a@);
    lemma_view_injective(u256_of(a@), a);
}

/// Every 256-bit integer is below two to the power 256.
pub proof fn lemma_view_bound(a: U256)
    ensures
        a@ < pow2_256(),
{
}

/// Two 256-bit integers that stand for the same number have the same limbs.
pub proof fn lemma_view_injective(a: U256, b: U256)
    requires
        a@ == b@,
    ensures
        a == b,
{
    let high_a = a.l1 as int + a.l2 as int * 0x1_0000_0000_0000_0000 + a.l3 as int
        * 0x1_0000_0000_0000_0000_0000_0000_0000_0000;
    let high_b = b.l1 as int + b.l2 as int * 0x1_0000_0000_0000_0000 + b.l3 as int
        * 0x1_0000_0000_0000_0000_0000_0000_0000_0000;
    assert(a@ == a.l0 + high_a * 0x1_0000_0000_0000_0000);
    assert(b@ == b.l0 + high_b * 0x1_0000_0000_0000_0000);
    assert(high_a == high_b);
    assert(a.l0 == b.l0);
    let top_a = a.l2 as int + a.l3 as int * 0x1_0000_0000_0000_0000;
    let top_b = b.l2 as int + b.l3 as int * 0x1_0000_0000_0000_0000;
    assert(high_a == a.l1 + top_a * 0x1_0000_0000_0000_0000);
    assert(high_b == b.l1 + top_b * 0x1_0000_0000_0000_0000);
    assert(top_a == top_b);
}

} // verus!
