use vstd::arithmetic::div_mod::*;
use vstd::arithmetic::mul::*;
use vstd::arithmetic::power::*;
use vstd::arithmetic::power2::*;
use vstd::bits::*;
use crate::prime_field::{
    covers_divisors, fermat_holds, is_prime, lemma_covers_power_of_two, lemma_euclid, lemma_fermat_modulus,
    lemma_p_minus_one_primes, lemma_seven_generator, modulus, mpow, p_minus_one_primes,
};
use vstd::prelude::*;

verus! {

/// The field modulus p = 2^64 - 2^32 + 1.
pub const P: u64 = 0xffff_ffff_0000_0001;

/// Sum in the field, on canonical representatives.
pub open spec fn fadd(x: nat, y: nat) -> nat {
    (x + y) % (P as nat)
}

/// Difference in the field, on canonical representatives.
pub open spec fn fsub(x: nat, y: nat) -> nat {
    ((x - y) % (P as int)) as nat
}

/// Additive inverse in the field.
pub open spec fn fneg(x: nat) -> nat {
    fsub(0, x)
}

/// Product in the field.
pub open spec fn fmul(x: nat, y: nat) -> nat {
    (x * y) % (P as nat)
}

/// `x` raised to the power `e` in the field (with 0^0 = 1).
pub open spec fn fpow(x: nat, e: nat) -> nat {
    (pow(x as int, e) % (P as int)) as nat
}

/// An element of the prime field with modulus `P`, stored as its canonical
/// representative in `[0, P)`.
#[derive(Debug, PartialEq, Eq, Structural, Copy, Clone, Hash)]
pub struct BFieldElement {
    value: u64,
}

impl View for BFieldElement {
    type V = nat;

    closed spec fn view(&self) -> nat {
        self.value as nat
    }
}

impl BFieldElement {
    pub const QUOTIENT: u128 = 0xffff_ffff_0000_0001u128;

    pub const MAX: u128 = 0xffff_ffff_0000_0000u128;

    #[verifier::type_invariant]
    spec fn canonical(self) -> bool {
        self.value < P
    }

    /// Every element is its canonical representative, and the representative
    /// determines the element.
    pub proof fn lemma_view(a: BFieldElement, b: BFieldElement)
        ensures
            a@ == b@ <==> a == b,
            Self::spec_zero()@ == 0,
    {
    }

    /// Reduces `value` modulo `P`.
    pub fn new(value: u128) -> (r: Self)
        ensures
            r@ == value as nat % (P as nat),
    {
        BFieldElement { value: (value % (P as u128)) as u64 }
    }

    /// The canonical representative.
    pub fn value(&self) -> (r: u64)
        ensures
            r == self@,
            r < P,
    {
        proof {
            use_type_invariant(self);
        }
        self.value
    }

    pub fn increment(&mut self)
        ensures
            final(self)@ == fadd(old(self)@, 1),
    {
        proof {
            use_type_invariant(&*self);
        }
        self.value = ((self.value as u128 + 1) % (P as u128)) as u64;
    }

    pub fn decrement(&mut self)
        ensures
            final(self)@ == fsub(old(self)@, 1),
    {
        proof {
            use_type_invariant(&*self);
        }
        let v = ((Self::MAX + self.value as u128) % Self::QUOTIENT) as u64;
        assert(v == fsub(self.value as nat, 1)) by {
            lemma_mod_multiples_vanish(1, self.value as int - 1, P as int);
        }
        self.value = v;
    }

    /// The zero element.
    pub closed spec fn spec_zero() -> Self {
        BFieldElement { value: 0 }
    }

    pub fn ring_zero() -> (r: Self)
        ensures
            r@ == 0,
            r == Self::spec_zero(),
    {
        BFieldElement { value: 0 }
    }

    pub fn ring_one() -> (r: Self)
        ensures
            r@ == 1,
    {
        BFieldElement { value: 1 }
    }

    pub fn is_zero(&self) -> (r: bool)
        ensures
            r == (self@ == 0),
    {
        self.value == 0
    }

    pub fn is_one(&self) -> (r: bool)
        ensures
            r == (self@ == 1),
    {
        self.value == 1
    }

    pub fn add(self, other: Self) -> (r: Self)
        ensures
            r@ == fadd(self@, other@),
    {
        BFieldElement { value: ((self.value as u128 + other.value as u128) % (P as u128)) as u64 }
    }

    pub fn sub(self, other: Self) -> (r: Self)
        ensures
            r@ == fsub(self@, other@),
    {
        proof {
            use_type_invariant(&self);
            use_type_invariant(&other);
            lemma_mod_multiples_vanish(1, self@ - other@, P as int);
        }
        BFieldElement {
            value: ((P as u128 - other.value as u128 + self.value as u128) % (P as u128)) as u64,
        }
    }

    pub fn neg(self) -> (r: Self)
        ensures
            r@ == fneg(self@),
    {
        Self::ring_zero().sub(self)
    }

    pub fn mul(self, other: Self) -> (r: Self)
        ensures
            r@ == fmul(self@, other@),
    {
        proof {
            use_type_invariant(&self);
            use_type_invariant(&other);
            lemma_mul_upper_bound(self.value as int, 0xffff_ffff_ffff_ffff, other.value as int, 0xffff_ffff_ffff_ffff);
        }
        BFieldElement { value: ((self.value as u128 * other.value as u128) % (P as u128)) as u64 }
    }
}

/// `x` squared then, when `bit` is 1, multiplied by the base once more: one step of
/// most-significant-bit-first exponentiation.
proof fn lemma_fpow_step(x: nat, e: nat, bit: nat)
    requires
        bit <= 1,
    ensures
        fpow(x, 2 * e + bit) == if bit == 1 {
            fmul(fmul(fpow(x, e), fpow(x, e)), x)
        } else {
            fmul(fpow(x, e), fpow(x, e))
        },
{
    let a = pow(x as int, e);
    lemma_pow_adds(x as int, e, e);
    lemma_mul_mod_noop(a, a, P as int);
    lemma_pow_positive_or_zero(x, e);
    if bit == 1 {
        lemma_pow_adds(x as int, 2 * e, 1);
        lemma_pow1(x as int);
        lemma_mul_mod_noop_left(a * a, x as int, P as int);
        lemma_pow_positive_or_zero(x, 2 * e);
    }
}

proof fn lemma_pow_positive_or_zero(x: nat, e: nat)
    ensures
        pow(x as int, e) >= 0,
{
    if x == 0 {
        if e > 0 {
            lemma0_pow(e);
        } else {
            lemma_pow0(0);
        }
    } else {
        lemma_pow_positive(x as int, e);
    }
}

/// `fpow(x, 2e)` is `fpow(x*x, e)`.
proof fn lemma_fpow_double(x: nat, e: nat)
    ensures
        fpow(x, 2 * e) == fpow(fmul(x, x), e),
{
    lemma_pow_multiplies(x as int, 2, e);
    lemma_square_is_pow2(x as int);
    lemma_pow_mod_noop((x * x) as int, e, P as int);
}

/// The Legendre symbol of `x`, by Euler's criterion: `x^((p-1)/2)`, read as -1, 0 or 1.
pub open spec fn legendre_of(x: nat) -> int {
    let e = fpow(x, ((P - 1) / 2) as nat);
    if e == P - 1 {
        -1
    } else if e == 0 {
        0
    } else {
        1
    }
}

/// The tabulated primitive root of unity of order `2^k`, for `1 <= k <= 32`.
pub open spec fn primitive_root_table(k: nat) -> nat {
    if k == 1 {
        18446744069414584320
    } else if k == 2 {
        281474976710656
    } else if k == 3 {
        18446744069397807105
    } else if k == 4 {
        17293822564807737345
    } else if k == 5 {
        70368744161280
    } else if k == 6 {
        549755813888
    } else if k == 7 {
        17870292113338400769
    } else if k == 8 {
        13797081185216407910
    } else if k == 9 {
        1803076106186727246
    } else if k == 10 {
        11353340290879379826
    } else if k == 11 {
        455906449640507599
    } else if k == 12 {
        17492915097719143606
    } else if k == 13 {
        1532612707718625687
    } else if k == 14 {
        16207902636198568418
    } else if k == 15 {
        17776499369601055404
    } else if k == 16 {
        6115771955107415310
    } else if k == 17 {
        12380578893860276750
    } else if k == 18 {
        9306717745644682924
    } else if k == 19 {
        18146160046829613826
    } else if k == 20 {
        3511170319078647661
    } else if k == 21 {
        17654865857378133588
    } else if k == 22 {
        5416168637041100469
    } else if k == 23 {
        16905767614792059275
    } else if k == 24 {
        9713644485405565297
    } else if k == 25 {
        5456943929260765144
    } else if k == 26 {
        17096174751763063430
    } else if k == 27 {
        1213594585890690845
    } else if k == 28 {
        6414415596519834757
    } else if k == 29 {
        16116352524544190054
    } else if k == 30 {
        9123114210336311365
    } else if k == 31 {
        4614640910117430873
    } else if k == 32 {
        1753635133440165772
    } else {
        1
    }
}

proof fn lemma_root_table_squares(k: nat)
    requires
        1 <= k < 32,
    ensures
        fmul(primitive_root_table(k + 1), primitive_root_table(k + 1)) == primitive_root_table(k),
{
    let w = primitive_root_table(k + 1);
    let v = primitive_root_table(k);
    if k == 1 {
        assert(w == 281474976710656 && v == 18446744069414584320);
        lemma_fundamental_div_mod_converse((281474976710656 * 281474976710656) as int, P as int, 4294967296, 18446744069414584320);
    } else if k == 2 {
        assert(w == 18446744069397807105 && v == 281474976710656);
        lemma_fundamental_div_mod_converse((18446744069397807105 * 18446744069397807105) as int, P as int, 18446744069381029889, 281474976710656);
    } else if k == 3 {
        assert(w == 17293822564807737345 && v == 18446744069397807105);
        lemma_fundamental_div_mod_converse((17293822564807737345 * 17293822564807737345) as int, P as int, 16212958654255595520, 18446744069397807105);
    } else if k == 4 {
        assert(w == 70368744161280 && v == 17293822564807737345);
        lemma_fundamental_div_mod_converse((70368744161280 * 70368744161280) as int, P as int, 268435455, 17293822564807737345);
    } else if k == 5 {
        assert(w == 549755813888 && v == 70368744161280);
        lemma_fundamental_div_mod_converse((549755813888 * 549755813888) as int, P as int, 16384, 70368744161280);
    } else if k == 6 {
        assert(w == 17870292113338400769 && v == 549755813888);
        lemma_fundamental_div_mod_converse((17870292113338400769 * 17870292113338400769) as int, P as int, 17311854006015885313, 549755813888);
    } else if k == 7 {
        assert(w == 13797081185216407910 && v == 17870292113338400769);
        lemma_fundamental_div_mod_converse((13797081185216407910 * 13797081185216407910) as int, P as int, 10319406422896923811, 17870292113338400769);
    } else if k == 8 {
        assert(w == 1803076106186727246 && v == 13797081185216407910);
        lemma_fundamental_div_mod_converse((1803076106186727246 * 1803076106186727246) as int, P as int, 176241586724885086, 13797081185216407910);
    } else if k == 9 {
        assert(w == 11353340290879379826 && v == 1803076106186727246);
        lemma_fundamental_div_mod_converse((11353340290879379826 * 11353340290879379826) as int, P as int, 6987592784692205430, 1803076106186727246);
    } else if k == 10 {
        assert(w == 455906449640507599 && v == 11353340290879379826);
        lemma_fundamental_div_mod_converse((455906449640507599 * 455906449640507599) as int, P as int, 11267608529812975, 11353340290879379826);
    } else if k == 11 {
        assert(w == 17492915097719143606 && v == 455906449640507599);
        lemma_fundamental_div_mod_converse((17492915097719143606 * 17492915097719143606) as int, P as int, 16588405924890216597, 455906449640507599);
    } else if k == 12 {
        assert(w == 1532612707718625687 && v == 17492915097719143606);
        lemma_fundamental_div_mod_converse((1532612707718625687 * 1532612707718625687) as int, P as int, 127334216977357403, 17492915097719143606);
    } else if k == 13 {
        assert(w == 16207902636198568418 && v == 1532612707718625687);
        lemma_fundamental_div_mod_converse((16207902636198568418 * 16207902636198568418) as int, P as int, 14240784545824149997, 1532612707718625687);
    } else if k == 14 {
        assert(w == 17776499369601055404 && v == 16207902636198568418);
        lemma_fundamental_div_mod_converse((17776499369601055404 * 17776499369601055404) as int, P as int, 17130607366173278638, 16207902636198568418);
    } else if k == 15 {
        assert(w == 6115771955107415310 && v == 17776499369601055404);
        lemma_fundamental_div_mod_converse((6115771955107415310 * 6115771955107415310) as int, P as int, 2027602620068516376, 17776499369601055404);
    } else if k == 16 {
        assert(w == 12380578893860276750 && v == 6115771955107415310);
        lemma_fundamental_div_mod_converse((12380578893860276750 * 12380578893860276750) as int, P as int, 8309256808156222390, 6115771955107415310);
    } else if k == 17 {
        assert(w == 9306717745644682924 && v == 12380578893860276750);
        lemma_fundamental_div_mod_converse((9306717745644682924 * 9306717745644682924) as int, P as int, 4695408299218975106, 12380578893860276750);
    } else if k == 18 {
        assert(w == 18146160046829613826 && v == 9306717745644682924);
        lemma_fundamental_div_mod_converse((18146160046829613826 * 18146160046829613826) as int, P as int, 17850473948468743512, 9306717745644682924);
    } else if k == 19 {
        assert(w == 3511170319078647661 && v == 18146160046829613826);
        lemma_fundamental_div_mod_converse((3511170319078647661 * 3511170319078647661) as int, P as int, 668319404399374695, 18146160046829613826);
    } else if k == 20 {
        assert(w == 17654865857378133588 && v == 3511170319078647661);
        lemma_fundamental_div_mod_converse((17654865857378133588 * 17654865857378133588) as int, P as int, 16896981237942002723, 3511170319078647661);
    } else if k == 21 {
        assert(w == 5416168637041100469 && v == 17654865857378133588);
        lemma_fundamental_div_mod_converse((5416168637041100469 * 5416168637041100469) as int, P as int, 1590247178281506213, 17654865857378133588);
    } else if k == 22 {
        assert(w == 16905767614792059275 && v == 5416168637041100469);
        lemma_fundamental_div_mod_converse((16905767614792059275 * 16905767614792059275) as int, P as int, 15493518941330557636, 5416168637041100469);
    } else if k == 23 {
        assert(w == 9713644485405565297 && v == 16905767614792059275);
        lemma_fundamental_div_mod_converse((9713644485405565297 * 9713644485405565297) as int, P as int, 5114988793349933654, 16905767614792059275);
    } else if k == 24 {
        assert(w == 5456943929260765144 && v == 9713644485405565297);
        lemma_fundamental_div_mod_converse((5456943929260765144 * 5456943929260765144) as int, P as int, 1614281465338340559, 9713644485405565297);
    } else if k == 25 {
        assert(w == 17096174751763063430 && v == 5456943929260765144);
        lemma_fundamental_div_mod_converse((17096174751763063430 * 17096174751763063430) as int, P as int, 15844486704156700236, 5456943929260765144);
    } else if k == 26 {
        assert(w == 1213594585890690845 && v == 17096174751763063430);
        lemma_fundamental_div_mod_converse((1213594585890690845 * 1213594585890690845) as int, P as int, 79841288704448195, 17096174751763063430);
    } else if k == 27 {
        assert(w == 6414415596519834757 && v == 1213594585890690845);
        lemma_fundamental_div_mod_converse((6414415596519834757 * 6414415596519834757) as int, P as int, 2230460144622294524, 1213594585890690845);
    } else if k == 28 {
        assert(w == 16116352524544190054 && v == 6414415596519834757);
        lemma_fundamental_div_mod_converse((16116352524544190054 * 16116352524544190054) as int, P as int, 14080361158478670879, 6414415596519834757);
    } else if k == 29 {
        assert(w == 9123114210336311365 && v == 16116352524544190054);
        lemma_fundamental_div_mod_converse((9123114210336311365 * 9123114210336311365) as int, P as int, 4511973093009996851, 16116352524544190054);
    } else if k == 30 {
        assert(w == 4614640910117430873 && v == 9123114210336311365);
        lemma_fundamental_div_mod_converse((4614640910117430873 * 4614640910117430873) as int, P as int, 1154399424049971884, 9123114210336311365);
    } else if k == 31 {
        assert(w == 1753635133440165772 && v == 4614640910117430873);
        lemma_fundamental_div_mod_converse((1753635133440165772 * 1753635133440165772) as int, P as int, 166708887468903991, 4614640910117430873);
    }
}

/// The tabulated root of order `2^k` has order exactly `2^k`: its `2^(k-1)`-th power
/// is -1.
pub proof fn lemma_primitive_root_order(k: nat)
    requires
        1 <= k <= 32,
    ensures
        fpow(primitive_root_table(k), pow2(k)) == 1,
        fpow(primitive_root_table(k), pow2((k - 1) as nat)) == P - 1,
    decreases k,
{
    let w = primitive_root_table(k);
    if k == 1 {
        lemma_pow2_unfold(1);
        lemma2_to64();
        lemma_fpow_double(w, 1);
        lemma_pow1(fmul(w, w) as int);
        lemma_pow1(w as int);
    } else {
        lemma_primitive_root_order((k - 1) as nat);
        lemma_root_table_squares((k - 1) as nat);
        lemma_pow2_unfold(k);
        lemma_pow2_unfold((k - 1) as nat);
        lemma_fpow_double(w, pow2((k - 1) as nat));
        lemma_fpow_double(w, pow2((k - 2) as nat));
    }
}

fn primitive_root_of_two_power(k: u32) -> (r: u64)
    ensures
        r == primitive_root_table(k as nat),
{
    if k == 1 {
        18446744069414584320u64
    } else if k == 2 {
        281474976710656u64
    } else if k == 3 {
        18446744069397807105u64
    } else if k == 4 {
        17293822564807737345u64
    } else if k == 5 {
        70368744161280u64
    } else if k == 6 {
        549755813888u64
    } else if k == 7 {
        17870292113338400769u64
    } else if k == 8 {
        13797081185216407910u64
    } else if k == 9 {
        1803076106186727246u64
    } else if k == 10 {
        11353340290879379826u64
    } else if k == 11 {
        455906449640507599u64
    } else if k == 12 {
        17492915097719143606u64
    } else if k == 13 {
        1532612707718625687u64
    } else if k == 14 {
        16207902636198568418u64
    } else if k == 15 {
        17776499369601055404u64
    } else if k == 16 {
        6115771955107415310u64
    } else if k == 17 {
        12380578893860276750u64
    } else if k == 18 {
        9306717745644682924u64
    } else if k == 19 {
        18146160046829613826u64
    } else if k == 20 {
        3511170319078647661u64
    } else if k == 21 {
        17654865857378133588u64
    } else if k == 22 {
        5416168637041100469u64
    } else if k == 23 {
        16905767614792059275u64
    } else if k == 24 {
        9713644485405565297u64
    } else if k == 25 {
        5456943929260765144u64
    } else if k == 26 {
        17096174751763063430u64
    } else if k == 27 {
        1213594585890690845u64
    } else if k == 28 {
        6414415596519834757u64
    } else if k == 29 {
        16116352524544190054u64
    } else if k == 30 {
        9123114210336311365u64
    } else if k == 31 {
        4614640910117430873u64
    } else if k == 32 {
        1753635133440165772u64
    } else {
        1u64
    }
}

impl BFieldElement {
    fn mod_pow_raw(&self, pow: u64) -> (r: u64)
        ensures
            r == fpow(self@, pow as nat),
    {
        proof {
            use_type_invariant(self);
        }
        if pow == 0 {
            proof {
                lemma_pow0(self@ as int);
            }
            return 1;
        }
        let mut acc: u128 = 1;
        let base: u128 = self.value as u128;
        let mut i: u64 = 0;
        proof {
            lemma2_to64();
            lemma2_to64_rest();
            lemma_pow0(self@ as int);
            assert(pow as nat / pow2(64) == 0) by {
                lemma_basic_div(pow as int, pow2(64) as int);
            }
        }
        while i < 64
            invariant
                0 <= i <= 64,
                base == self@,
                base < P,
                acc < P,
                acc == fpow(self@, pow as nat / pow2((64 - i) as nat)),
            decreases 64 - i,
        {
            let shifted: u64 = pow >> (63 - i);
            let bit: u64 = shifted & 1;
            proof {
                let e = pow as nat / pow2((64 - i) as nat);
                let e2 = pow as nat / pow2((63 - i) as nat);
                lemma_u64_shr_is_div(pow, (63 - i) as u64);
                assert(shifted & 1 == shifted % 2) by (bit_vector);
                lemma_pow2_unfold((64 - i) as nat);
                lemma_pow2_pos((63 - i) as nat);
                lemma_div_denominator(pow as int, pow2((63 - i) as nat) as int, 2);
                lemma_fundamental_div_mod(e2 as int, 2);
                assert(e2 == 2 * e + bit);
                lemma_fpow_step(self@, e, bit as nat);
                lemma_mul_upper_bound(acc as int, P as int, acc as int, P as int);
            }
            acc = acc * acc % (P as u128);
            if bit == 1 {
                proof {
                    lemma_mul_upper_bound(acc as int, P as int, base as int, P as int);
                }
                acc = acc * base % (P as u128);
            }
            i = i + 1;
        }
        proof {
            lemma2_to64();
            assert(pow as nat / 1 == pow as nat);
        }
        acc as u64
    }

    /// `self` raised to the power `pow`, by square-and-multiply over all 64 bits of the
    /// exponent, most significant first (0^0 = 1).
    pub fn mod_pow(&self, pow: u64) -> (r: Self)
        ensures
            r@ == fpow(self@, pow as nat),
    {
        BFieldElement { value: self.mod_pow_raw(pow) }
    }

    pub fn mod_pow_u32(&self, exp: u32) -> (r: Self)
        ensures
            r@ == fpow(self@, exp as nat),
    {
        self.mod_pow(exp as u64)
    }

    pub fn mod_pow_u64(&self, pow: u64) -> (r: Self)
        ensures
            r@ == fpow(self@, pow as nat),
    {
        self.mod_pow(pow)
    }

    /// The Legendre symbol by Euler's criterion.
    pub fn legendre_symbol(&self) -> (r: i8)
        ensures
            r == legendre_of(self@),
    {
        let elem = self.mod_pow(((Self::QUOTIENT - 1) / 2) as u64).value;
        if elem == P - 1 {
            -1
        } else if elem == 0 {
            0
        } else {
            1
        }
    }

    /// The multiplicative inverse of a non-zero element, computed as `self^(p-2)`.
    pub fn inverse(&self) -> (r: Self)
        requires
            self@ != 0,
        ensures
            r@ == fpow(self@, (P - 2) as nat),
            fmul(self@, r@) == 1,
    {
        proof {
            use_type_invariant(self);
            lemma_inverse(self@);
        }
        self.mod_pow(P - 2)
    }

    /// The multiplicative inverse, or `None` for zero, which has none.
    pub fn try_inverse(&self) -> (r: Option<Self>)
        ensures
            r is None <==> self@ == 0,
            r is Some ==> r->0@ == fpow(self@, (P - 2) as nat) && fmul(self@, r->0@) == 1,
    {
        if self.is_zero() {
            None
        } else {
            Some(self.inverse())
        }
    }

    /// The quotient by a non-zero element.
    pub fn div(self, other: Self) -> (r: Self)
        requires
            other@ != 0,
        ensures
            r@ == fmul(self@, fpow(other@, (P - 2) as nat)),
    {
        self.mul(other.inverse())
    }

    /// A primitive `n`-th root of unity, with the prime factors of `n`.
    ///
    /// Roots are tabulated for `n = 2^k`, `1 <= k <= 32`: these are returned with
    /// the factor list `[2]`. For `n <= 1` the root is one and the list is empty.
    /// Every other `n` is refused with `None` and an empty list.
    pub fn get_primitive_root_of_unity(n: u128) -> (r: (Option<BFieldElement>, Vec<u128>))
        ensures
            n <= 1 ==> r.0 is Some && r.0->0@ == 1 && r.1@ == Seq::<u128>::empty(),
            forall|k: nat|
                1 <= k <= 32 && n == pow2(k) ==> r.0 is Some && r.0->0@ == primitive_root_table(k)
                    && r.1@ == seq![2u128],
            n >= 2 ==> (r.0 is Some <==> (P - 1) as nat % (n as nat) == 0),
            r.0 is None ==> r.1@ == Seq::<u128>::empty(),
            r.0 is Some ==> fpow(r.0->0@, n as nat) == 1,
            r.0 is Some && n >= 2 ==> forall|i: int|
                0 <= i < r.1.len() ==> is_prime(#[trigger] r.1[i] as nat) && (n as nat) % (r.1[i] as nat)
                    == 0 && fpow(r.0->0@, (n / r.1[i]) as nat) != 1,
            r.0 is Some && n >= 2 ==> forall|q: nat|
                is_prime(q) && #[trigger] ((n as nat) % q) == 0 ==> r.1@.contains(q as u128),
    {
        if n <= 1 {
            proof {
                assert forall|k: nat| 1 <= k <= 32 implies n != pow2(k) by {
                    lemma2_to64();
                    lemma_pow2_strictly_increases(0, k);
                }
                lemma_pow0(1);
                if n == 1 {
                    lemma_pow1(1);
                }
            }
            return (Some(Self::ring_one()), Vec::new());
        }
        let mut m: u128 = 2;
        let mut k: u32 = 1;
        proof {
            lemma2_to64();
        }
        while k <= 32
            invariant
                1 <= k <= 33,
                m == pow2(k as nat),
                n > 1,
                forall|j: nat| 1 <= j < k ==> n != pow2(j),
            decreases 33 - k,
        {
            if n == m {
                let root = BFieldElement { value: primitive_root_of_two_power(k) };
                proof {
                    lemma_primitive_root_order(k as nat);
                    lemma_pow2_unfold(k as nat);
                    assert forall|j: nat| 1 <= j <= 32 && n == pow2(j) implies j == k by {
                        if j < k {
                        } else if j > k {
                            lemma_pow2_strictly_increases(k as nat, j);
                        }
                    }
                }
                let primes = vec![2u128];
                proof {
                    assert(primes@ =~= seq![2u128]);
                    lemma_two_power_divides(k as nat);
                    lemma_prime_factor_of_two_power(n as nat, k as nat);
                    assert(primes[0] == 2);
                    assert(is_prime(2));
                    assert(pow2(k as nat) == 2 * pow2((k - 1) as nat));
                }
                return (Some(root), primes);
            }
            proof {
                lemma_pow2_unfold((k + 1) as nat);
                lemma2_to64();
                if k < 32 {
                    lemma_pow2_strictly_increases(k as nat, 32);
                }
            }
            m = m * 2;
            k = k + 1;
        }
        proof {
            assert forall|j: nat| 1 <= j <= 32 implies n != pow2(j) by {}
        }
        let order: u128 = 0xffff_ffff_0000_0000;
        if n > order || order % n != 0 {
            proof {
                if n > order {
                    lemma_small_mod((P - 1) as nat, n as nat);
                }
            }
            return (None, Vec::new());
        }
        let nn = n as u64;
        let primes = prime_factors_of_divisor(nn);
        let exponent: u64 = 0xffff_ffff_0000_0000u64 / nn;
        let mut c: u64 = 1;
        loop
            invariant
                1 <= c <= 7,
                2 <= nn,
                nn == n,
                forall|j: nat| 1 <= j <= 32 ==> n != pow2(j),
                (P - 1) as nat % (nn as nat) == 0,
                exponent == (P - 1) as nat / (nn as nat),
                forall|i: int|
                    0 <= i < primes.len() ==> is_prime(#[trigger] primes[i] as nat) && (nn as nat) % (
                    primes[i] as nat) == 0 && p_minus_one_primes().contains(primes[i] as nat),
                forall|q: nat| is_prime(q) && #[trigger] ((nn as nat) % q) == 0 ==> primes@.contains(q as u128),
            decreases 8 - c,
        {
            let candidate = BFieldElement::new(c as u128);
            let legendre = candidate.legendre_symbol();
            let passes = legendre == -1 && passes_order_checks(candidate, &primes);
            if passes {
                let root = candidate.mod_pow(exponent);
                proof {
                    lemma_root_from_candidate(c as nat, nn as nat, primes@);
                }
                return (Some(root), primes);
            }
            proof {
                if c == 7 {
                    lemma_seven_passes(primes@);
                }
            }
            c = c + 1;
        }
    }
}

/// The field laws on canonical representatives: addition and multiplication are
/// associative and commutative, multiplication distributes over addition, zero and
/// one are the identities, `-a` cancels `a`, and a non-zero `a` times its inverse
/// `a^(p-2)` is one.
pub proof fn lemma_field_laws(a: nat, b: nat, c: nat)
    requires
        a < P,
        b < P,
        c < P,
    ensures
        fadd(fadd(a, b), c) == fadd(a, fadd(b, c)),
        fadd(a, b) == fadd(b, a),
        fmul(fmul(a, b), c) == fmul(a, fmul(b, c)),
        fmul(a, b) == fmul(b, a),
        fmul(a, fadd(b, c)) == fadd(fmul(a, b), fmul(a, c)),
        fadd(a, 0) == a,
        fmul(a, 1) == a,
        fadd(fneg(a), a) == 0,
        a != 0 ==> fmul(a, fpow(a, (P - 2) as nat)) == 1,
{
    if a != 0 {
        lemma_inverse(a);
    }
    let p = P as int;
    lemma_small_mod(a, P as nat);
    lemma_small_mod(c, P as nat);
    lemma_add_mod_noop((a + b) as int, c as int, p);
    lemma_add_mod_noop(a as int, (b + c) as int, p);
    lemma_mul_mod_noop_left((a * b) as int, c as int, p);
    lemma_mul_mod_noop_right(a as int, (b * c) as int, p);
    lemma_mul_is_associative(a as int, b as int, c as int);
    lemma_mul_is_commutative(a as int, b as int);
    lemma_mul_mod_noop_right(a as int, (b + c) as int, p);
    lemma_mul_is_distributive_add(a as int, b as int, c as int);
    lemma_add_mod_noop((a * b) as int, (a * c) as int, p);
    lemma_add_mod_noop(-a, a as int, p);
    lemma_mod_bound(-a, p);
}

/// `(x*y)*z` is `x*(z*y)` in the field.
proof fn lemma_mul_rotate(x: nat, y: nat, z: nat)
    requires
        x < P,
        y < P,
        z < P,
    ensures
        fmul(fmul(x, y), z) == fmul(x, fmul(z, y)),
{
    lemma_field_laws(x, y, z);
    lemma_field_laws(z, y, x);
}

/// Product of the first `i` entries.
pub open spec fn prefix_product(v: Seq<BFieldElement>, i: int) -> nat
    decreases i,
{
    if i <= 0 {
        1
    } else {
        fmul(prefix_product(v, i - 1), v[i - 1]@)
    }
}

/// Product of the entries from index `i` on.
pub open spec fn suffix_product(v: Seq<BFieldElement>, i: int) -> nat
    decreases v.len() - i,
{
    if i >= v.len() {
        1
    } else {
        fmul(v[i]@, suffix_product(v, i + 1))
    }
}

/// What batch inversion yields at index `i`: the inverse of the product of all
/// entries, times the product of all the others.
pub open spec fn batch_inverse_at(v: Seq<BFieldElement>, i: int) -> nat {
    fmul(
        fmul(fpow(prefix_product(v, v.len() as int), (P - 2) as nat), suffix_product(v, i + 1)),
        prefix_product(v, i),
    )
}

impl BFieldElement {
    /// Inverts every entry with a single field inversion (Montgomery's trick).
    pub fn batch_inversion(input: Vec<BFieldElement>) -> (r: Vec<BFieldElement>)
        requires
            forall|i: int| 0 <= i < input.len() ==> input[i]@ != 0,
        ensures
            r.len() == input.len(),
            forall|i: int| 0 <= i < input.len() ==> r[i]@ == batch_inverse_at(input@, i),
            forall|i: int| 0 <= i < input.len() ==> r[i]@ == fpow(input[i]@, (P - 2) as nat),
    {
        let size = input.len();
        if size == 0 {
            return Vec::new();
        }
        let mut scratch: Vec<BFieldElement> = Vec::new();
        let mut acc = Self::ring_one();
        let mut i: usize = 0;
        while i < size
            invariant
                size == input.len(),
                0 <= i <= size,
                scratch.len() == i,
                acc@ == prefix_product(input@, i as int),
                forall|k: int| 0 <= k < i ==> scratch[k]@ == prefix_product(input@, k),
                forall|k: int| 0 <= k < i ==> #[trigger] input[k]@ < P,
            decreases size - i,
        {
            let x = input[i];
            proof {
                use_type_invariant(&x);
            }
            scratch.push(acc);
            acc = acc.mul(input[i]);
            i = i + 1;
        }
        let ghost v = input@;
        let ghost inv = fpow(prefix_product(v, size as int), (P - 2) as nat);
        proof {
            assert forall|k: int| 0 <= k < v.len() implies #[trigger] batch_inverse_at(v, k) == fpow(
                v[k]@,
                (P - 2) as nat,
            ) by {
                lemma_batch_inversion_agrees(v, k);
            }
        }
        proof {
            lemma_prefix_nonzero(v, size as int);
        }
        acc = acc.inverse();
        let mut res = input;
        let mut i: usize = size;
        proof {
            lemma_field_laws(inv, 0, 0);
        }
        while i > 0
            invariant
                size == res.len(),
                v.len() == size,
                scratch.len() == size,
                0 <= i <= size,
                inv == fpow(prefix_product(v, size as int), (P - 2) as nat),
                acc@ == fmul(inv, suffix_product(v, i as int)),
                forall|k: int| 0 <= k < size ==> scratch[k]@ == prefix_product(v, k),
                forall|k: int| 0 <= k < i ==> res[k] == v[k],
                forall|k: int| i <= k < size ==> res[k]@ == batch_inverse_at(v, k),
                forall|k: int|
                    0 <= k < v.len() ==> #[trigger] batch_inverse_at(v, k) == fpow(v[k]@, (P - 2) as nat),
            decreases i,
        {
            let j = i - 1;
            let x = res[j];
            let tmp = acc.mul(x);
            let out = acc.mul(scratch[j]);
            res.set(j, out);
            proof {
                use_type_invariant(&x);
                use_type_invariant(&acc);
                lemma_mul_rotate(inv, suffix_product(v, i as int), v[j as int]@);
            }
            acc = tmp;
            i = j;
        }
        assert forall|k: int| 0 <= k < size implies res[k]@ == fpow(v[k]@, (P - 2) as nat) by {
            assert(res[k]@ == batch_inverse_at(v, k));
        }
        res
    }
}

impl BFieldElement {
    pub fn new_from_usize(value: usize) -> (r: Self)
        ensures
            r@ == value as nat % (P as nat),
    {
        Self::new(value as u128)
    }

    /// The element whose canonical representative is `word`; `None` for a word of `P`
    /// or more. Decoding refuses such values, and sampling from uniform 64-bit words
    /// skips them so that the result stays uniform.
    pub fn try_from_canonical(word: u64) -> (r: Option<Self>)
        ensures
            word < P ==> r is Some && r->0@ == word,
            word >= P ==> r is None,
    {
        if word < P {
            Some(BFieldElement { value: word })
        } else {
            None
        }
    }

    /// The powers `1, self, self^2, ...`, up to and including the first power after
    /// `self^0` that is one, or until `max` powers have been listed.
    pub fn get_cyclic_group_elements(&self, max: Option<usize>) -> (r: Vec<Self>)
        ensures
            r.len() >= 2,
            forall|i: int| 0 <= i < r.len() ==> r[i]@ == fpow(self@, i as nat),
            forall|i: int| 1 <= i < r.len() - 1 ==> r[i]@ != 1,
            r[r.len() - 1]@ == 1 || (max is Some && r.len() >= max->0) || r.len() == usize::MAX,
    {
        let mut val = *self;
        let mut ret: Vec<Self> = Vec::new();
        ret.push(Self::ring_one());
        proof {
            use_type_invariant(self);
            lemma_pow0(self@ as int);
            lemma_pow1(self@ as int);
            lemma_small_mod(self@, P as nat);
        }
        loop
            invariant_except_break
                1 <= ret.len() < usize::MAX,
                val@ == fpow(self@, ret.len() as nat),
                forall|i: int| 1 <= i < ret.len() ==> ret[i]@ != 1,
            invariant
                forall|i: int| 0 <= i < ret.len() ==> ret[i]@ == fpow(self@, i as nat),
            ensures
                ret.len() >= 2,
                forall|i: int| 1 <= i < ret.len() - 1 ==> ret[i]@ != 1,
                ret[ret.len() - 1]@ == 1 || (max is Some && ret.len() >= max->0) || ret.len()
                    == usize::MAX,
            decreases usize::MAX - ret.len(),
        {
            ret.push(val);
            let stop = val.is_one() || (max.is_some() && ret.len() >= max.unwrap())
                || ret.len() == usize::MAX;
            proof {
                lemma_pow_adds(self@ as int, (ret.len() - 1) as nat, 1);
                lemma_pow1(self@ as int);
                lemma_mul_mod_noop_left(pow(self@ as int, (ret.len() - 1) as nat), self@ as int, P as int);
            }
            if stop {
                break;
            }
            val = val.mul(*self);
        }
        ret
    }
}

/// `x^(e+1)` is `x^e * x`.
pub proof fn lemma_fpow_succ(x: nat, e: nat)
    ensures
        fpow(x, e + 1) == fmul(fpow(x, e), x),
{
    lemma_pow_adds(x as int, e, 1);
    lemma_pow1(x as int);
    lemma_pow_positive_or_zero(x, e);
    lemma_mul_mod_noop_left(pow(x as int, e), x as int, P as int);
}

/// Every non-zero element times its `(p-2)`-th power is one (Fermat's little theorem
/// for the prime `p`).
pub proof fn lemma_inverse(a: nat)
    requires
        0 < a < P,
    ensures
        fmul(a, fpow(a, (P - 2) as nat)) == 1,
{
    lemma_fermat_modulus();
    assert(modulus() == P as int);
    assert(mpow(a as int, (P - 1) as nat, P as int) == 1);
    let e = (P - 2) as nat;
    lemma_pow_adds(a as int, 1, e);
    lemma_pow1(a as int);
    lemma_pow_positive_or_zero(a, e);
    lemma_mul_mod_noop_right(a as int, pow(a as int, e), P as int);
    assert(1 + e == (P - 1) as nat);
}

/// A product of non-zero elements is not zero.
pub proof fn lemma_no_zero_divisors(a: nat, b: nat)
    requires
        0 < a < P,
        0 < b < P,
    ensures
        fmul(a, b) != 0,
{
    lemma_fermat_modulus();
    assert(modulus() == P as int);
    if fmul(a, b) == 0 {
        lemma_euclid(P as int, a as int, b as int);
        lemma_small_mod(a, P as nat);
        lemma_small_mod(b, P as nat);
    }
}

/// Inverses are unique: if `y * x == 1` then `y` is `x^(p-2)`.
proof fn lemma_inverse_unique(x: nat, y: nat)
    requires
        0 < x < P,
        y < P,
        fmul(y, x) == 1,
    ensures
        y == fpow(x, (P - 2) as nat),
{
    let z = fpow(x, (P - 2) as nat);
    lemma_inverse(x);
    lemma_field_laws(y, x, z);
    lemma_field_laws(z, 1, 0);
    lemma_field_laws(y, 1, 0);
    lemma_field_laws(1, z, 0);
}

proof fn lemma_prefix_canonical(v: Seq<BFieldElement>, i: int)
    ensures
        prefix_product(v, i) < P,
    decreases i,
{
    if i > 0 {
        lemma_prefix_canonical(v, i - 1);
    }
}

proof fn lemma_suffix_canonical(v: Seq<BFieldElement>, i: int)
    ensures
        suffix_product(v, i) < P,
    decreases v.len() - i,
{
    if i < v.len() {
        lemma_suffix_canonical(v, i + 1);
    }
}

/// The product of all entries splits at any `j`: `prefix(j) * suffix(j)`.
proof fn lemma_product_split(v: Seq<BFieldElement>, j: int)
    requires
        0 <= j <= v.len(),
        forall|k: int| 0 <= k < v.len() ==> #[trigger] v[k]@ < P,
    ensures
        prefix_product(v, v.len() as int) == fmul(prefix_product(v, j), suffix_product(v, j)),
    decreases v.len() - j,
{
    lemma_prefix_canonical(v, j);
    lemma_suffix_canonical(v, j + 1);
    if j == v.len() {
        lemma_field_laws(prefix_product(v, j), 0, 0);
    } else {
        lemma_product_split(v, j + 1);
        lemma_field_laws(prefix_product(v, j), v[j]@, suffix_product(v, j + 1));
    }
}

proof fn lemma_prefix_nonzero(v: Seq<BFieldElement>, i: int)
    requires
        0 <= i <= v.len(),
        forall|k: int| 0 <= k < v.len() ==> #[trigger] v[k]@ < P && v[k]@ != 0,
    ensures
        prefix_product(v, i) != 0,
    decreases i,
{
    if i > 0 {
        lemma_prefix_nonzero(v, i - 1);
        lemma_prefix_canonical(v, i - 1);
        lemma_no_zero_divisors(prefix_product(v, i - 1), v[i - 1]@);
    }
}

/// Batch inversion agrees with inversion entry by entry, on vectors without zeros.
pub proof fn lemma_batch_inversion_agrees(v: Seq<BFieldElement>, i: int)
    requires
        0 <= i < v.len(),
        forall|k: int| 0 <= k < v.len() ==> #[trigger] v[k]@ < P && v[k]@ != 0,
    ensures
        batch_inverse_at(v, i) == fpow(v[i]@, (P - 2) as nat),
{
    let n = v.len() as int;
    let x = v[i]@;
    let a = prefix_product(v, i);
    let b = suffix_product(v, i + 1);
    let t = prefix_product(v, n);
    let inv = fpow(t, (P - 2) as nat);
    lemma_prefix_canonical(v, i);
    lemma_suffix_canonical(v, i + 1);
    lemma_prefix_canonical(v, n);
    lemma_product_split(v, i);
    lemma_prefix_nonzero(v, n);
    lemma_inverse(t);
    assert(t == fmul(a, fmul(x, b)));
    let y = fmul(fmul(inv, b), a);
    // y * x = inv * (b * (a * x)) = inv * t = 1
    lemma_field_laws(inv, b, a);
    lemma_field_laws(fmul(inv, b), a, x);
    lemma_field_laws(inv, b, fmul(a, x));
    lemma_field_laws(b, a, x);
    lemma_field_laws(a, x, b);
    lemma_field_laws(fmul(a, x), b, 0);
    lemma_field_laws(x, b, 0);
    lemma_field_laws(a, fmul(x, b), 0);
    lemma_field_laws(inv, t, 0);
    assert(fmul(y, x) == fmul(inv, fmul(b, fmul(a, x))));
    assert(fmul(b, fmul(a, x)) == t);
    assert(fmul(y, x) == 1);
    lemma_inverse_unique(x, y);
}

/// The number whose little-endian bytes are `s`.
pub open spec fn le_value(s: Seq<u8>) -> nat
    decreases s.len(),
{
    if s.len() == 0 {
        0
    } else {
        s[0] as nat + 256 * le_value(s.drop_first())
    }
}

proof fn lemma_le_value_bound(s: Seq<u8>)
    ensures
        le_value(s) < pow(256, s.len()),
    decreases s.len(),
{
    if s.len() == 0 {
        lemma_pow0(256);
    } else {
        lemma_le_value_bound(s.drop_first());
        lemma_pow_adds(256, 1, (s.len() - 1) as nat);
        lemma_pow1(256);
        let t = le_value(s.drop_first());
        let q = pow(256, (s.len() - 1) as nat);
        assert(s[0] as nat + 256 * t < 256 * q) by (nonlinear_arith)
            requires
                t < q,
                s[0] < 256,
        ;
    }
}

proof fn lemma_pow256()
    ensures
        pow(256, 7) == 0x100_0000_0000_0000,
        pow(256, 8) == 0x1_0000_0000_0000_0000,
{
    lemma_pow1(256);
    lemma_pow_adds(256, 1, 1);
    lemma_pow_adds(256, 2, 1);
    lemma_pow_adds(256, 3, 1);
    lemma_pow_adds(256, 4, 1);
    lemma_pow_adds(256, 5, 1);
    lemma_pow_adds(256, 6, 1);
    lemma_pow_adds(256, 7, 1);
}

/// The number held by the first eight bytes, little-endian.
fn read_le_u64(bytes: &Vec<u8>) -> (r: u64)
    requires
        bytes.len() >= 8,
    ensures
        r == le_value(bytes@.subrange(0, 8)),
{
    let ghost s = bytes@.subrange(0, 8);
    let mut acc: u128 = 0;
    let mut i: usize = 8;
    assert(s.subrange(8, 8) =~= Seq::<u8>::empty());
    while i > 0
        invariant
            0 <= i <= 8,
            bytes.len() >= 8,
            s == bytes@.subrange(0, 8),
            acc == le_value(s.subrange(i as int, 8)),
        decreases i,
    {
        i = i - 1;
        proof {
            assert(s.subrange(i as int, 8).drop_first() =~= s.subrange(i + 1, 8));
            lemma_le_value_bound(s.subrange(i + 1, 8));
            vstd::arithmetic::power::lemma_pow_increases(256, (7 - i) as nat, 7);
            lemma_pow256();
        }
        acc = acc * 256 + bytes[i] as u128;
    }
    proof {
        assert(s.subrange(0, 8) =~= s);
        lemma_le_value_bound(s);
        lemma_pow256();
    }
    acc as u64
}

impl BFieldElement {
    /// The element read from the first eight bytes, little-endian, reduced modulo `P`.
    pub fn from_vecu8(bytes: Vec<u8>) -> (r: Self)
        requires
            bytes.len() >= 8,
        ensures
            r@ == le_value(bytes@.subrange(0, 8)) % (P as nat),
    {
        let n = read_le_u64(&bytes);
        Self::new(n as u128)
    }

    /// Decodes the wire format: exactly eight little-endian bytes holding a value below
    /// `P`; anything else is refused.
    pub fn try_decode(bytes: &Vec<u8>) -> (r: Option<Self>)
        ensures
            r is Some <==> bytes.len() == 8 && le_value(bytes@) < P,
            r is Some ==> r->0@ == le_value(bytes@),
    {
        if bytes.len() != 8 {
            return None;
        }
        let n = read_le_u64(bytes);
        assert(bytes@.subrange(0, 8) =~= bytes@);
        Self::try_from_canonical(n)
    }
}

/// `fpow(fpow(x, a), b)` is `fpow(x, a * b)`.
proof fn lemma_fpow_mul(x: nat, a: nat, b: nat)
    ensures
        fpow(fpow(x, a), b) == fpow(x, a * b),
{
    lemma_pow_multiplies(x as int, a, b);
    lemma_pow_positive_or_zero(x, a);
    lemma_pow_mod_noop(pow(x as int, a), b, P as int);
}

/// `2^k` divides `p - 1` for `k <= 32`.
pub proof fn lemma_two_power_divides(k: nat)
    requires
        k <= 32,
    ensures
        (P - 1) as nat % pow2(k) == 0,
{
    lemma2_to64();
    lemma_pow2_adds(k, (32 - k) as nat);
    lemma_pow2_pos(k);
    let m = pow2((32 - k) as nat) * 4294967295;
    assert((P - 1) as nat == pow2(k) * m) by {
        lemma_mul_is_associative(pow2(k) as int, pow2((32 - k) as nat) as int, 4294967295);
    }
    lemma_mod_multiples_basic(m as int, pow2(k) as int);
    lemma_mul_is_commutative(m as int, pow2(k) as int);
}

/// The only prime dividing `2^k` is 2.
proof fn lemma_prime_factor_of_two_power(n: nat, k: nat)
    requires
        n == pow2(k),
    ensures
        forall|q: nat| is_prime(q) && #[trigger] (n % q) == 0 ==> q == 2,
{
    vstd::arithmetic::power2::lemma_pow2(k);
    lemma_covers_power_of_two(k);
    assert forall|q: nat| is_prime(q) && #[trigger] (n % q) == 0 implies q == 2 by {
        assert(q >= 2);
        assert(exists|i: int| 0 <= i < seq![2nat].len() && q % seq![2nat][i] == 0);
        let i = choose|i: int| 0 <= i < seq![2nat].len() && q % seq![2nat][i] == 0;
        assert(q % 2 == 0);
        if q > 2 {
            assert(q % 2 != 0);
        }
    }
}

/// The prime factors of a divisor `n` of `p - 1`: those of 2, 3, 5, 17, 257 and 65537
/// that divide it.
fn prime_factors_of_divisor(n: u64) -> (r: Vec<u128>)
    requires
        n >= 2,
        (P - 1) as nat % (n as nat) == 0,
    ensures
        forall|i: int|
            0 <= i < r.len() ==> is_prime(#[trigger] r[i] as nat) && (n as nat) % (r[i] as nat) == 0
                && p_minus_one_primes().contains(r[i] as nat),
        forall|q: nat| is_prime(q) && #[trigger] ((n as nat) % q) == 0 ==> r@.contains(q as u128),
{
    let candidates: [u64; 6] = [2, 3, 5, 17, 257, 65537];
    let ghost fs = p_minus_one_primes();
    proof {
        lemma_p_minus_one_primes();
        assert(candidates@ =~= seq![2u64, 3u64, 5u64, 17u64, 257u64, 65537u64]);
    }
    let mut r: Vec<u128> = Vec::new();
    let mut i: usize = 0;
    while i < 6
        invariant
            0 <= i <= 6,
            fs == p_minus_one_primes(),
            candidates@ == seq![2u64, 3u64, 5u64, 17u64, 257u64, 65537u64],
            forall|k: int| 0 <= k < 6 ==> #[trigger] is_prime(fs[k]),
            forall|k: int|
                0 <= k < r.len() ==> is_prime(#[trigger] r[k] as nat) && (n as nat) % (r[k] as nat) == 0
                    && fs.contains(r[k] as nat),
            forall|k: int| 0 <= k < i && (n as nat) % fs[k] == 0 ==> r@.contains(fs[k] as u128),
        decreases 6 - i,
    {
        let c = candidates[i];
        assert(c as nat == fs[i as int]);
        let ghost before = r@;
        if n % c == 0 {
            r.push(c as u128);
            assert(r@[r.len() - 1] == c as u128);
            assert forall|k: int| 0 <= k < i && (n as nat) % fs[k] == 0 implies r@.contains(fs[k] as u128) by {
                let j = choose|j: int| 0 <= j < before.len() && before[j] == fs[k] as u128;
                assert(r@[j] == fs[k] as u128);
            }
        }
        i = i + 1;
    }
    proof {
        assert forall|q: nat| is_prime(q) && #[trigger] ((n as nat) % q) == 0 implies r@.contains(q as u128) by {
            // q divides n, which divides p - 1.
            lemma_fundamental_div_mod((P - 1) as int, n as int);
            lemma_fundamental_div_mod(n as int, q as int);
            let a = (P - 1) as int / (n as int);
            let b = n as int / (q as int);
            assert((P - 1) as int == q * (b * a)) by {
                lemma_mul_is_associative(q as int, b, a);
            }
            lemma_mul_is_commutative(q as int, b * a);
            lemma_mod_multiples_basic(b * a, q as int);
            assert(18446744069414584320nat % q == 0);
            let k = choose|k: int| 0 <= k < fs.len() && fs[k] == q;
        }
    }
    r
}

/// Whether `c^((p-1)/q)` is not one for every `q` of `primes`.
fn passes_order_checks(c: BFieldElement, primes: &Vec<u128>) -> (r: bool)
    requires
        forall|i: int| 0 <= i < primes.len() ==> 1 <= #[trigger] primes[i] <= P - 1,
    ensures
        r == forall|i: int|
            0 <= i < primes.len() ==> fpow(c@, ((P - 1) as nat / (#[trigger] primes[i] as nat)) as nat) != 1,
{
    let mut i: usize = 0;
    while i < primes.len()
        invariant
            0 <= i <= primes.len(),
            forall|k: int| 0 <= k < primes.len() ==> 1 <= #[trigger] primes[k] <= P - 1,
            forall|k: int|
                0 <= k < i ==> fpow(c@, ((P - 1) as nat / (#[trigger] primes[k] as nat)) as nat) != 1,
        decreases primes.len() - i,
    {
        let e = (0xffff_ffff_0000_0000u128 / primes[i]) as u64;
        if c.mod_pow(e).is_one() {
            return false;
        }
        i = i + 1;
    }
    true
}

/// The candidate 7 passes every test, for any list of primes dividing `p - 1`.
proof fn lemma_seven_passes(primes: Seq<u128>)
    requires
        forall|i: int| 0 <= i < primes.len() ==> p_minus_one_primes().contains(#[trigger] primes[i] as nat),
    ensures
        legendre_of(7) == -1,
        forall|i: int|
            0 <= i < primes.len() ==> fpow(7, ((P - 1) as nat / (#[trigger] primes[i] as nat)) as nat) != 1,
{
    lemma_seven_generator(2);
    assert forall|i: int| 0 <= i < primes.len() implies fpow(7, ((P - 1) as nat / (#[trigger] primes[i] as nat)) as nat)
        != 1 by {
        lemma_seven_generator(primes[i] as nat);
    }
}

/// `c^((p-1)/n)` has order `n` when `c` passed the tests for the prime factors of `n`.
proof fn lemma_root_from_candidate(c: nat, n: nat, primes: Seq<u128>)
    requires
        1 <= c <= 7,
        n >= 2,
        (P - 1) as nat % n == 0,
        forall|i: int| 0 <= i < primes.len() ==> 1 <= #[trigger] primes[i] && n % (primes[i] as nat) == 0,
        forall|i: int|
            0 <= i < primes.len() ==> fpow(c, ((P - 1) as nat / (#[trigger] primes[i] as nat)) as nat) != 1,
    ensures
        fpow(fpow(c, (P - 1) as nat / n), n) == 1,
        forall|i: int|
            0 <= i < primes.len() ==> fpow(fpow(c, (P - 1) as nat / n), (n / (#[trigger] primes[i] as nat)) as nat) != 1,
{
    let e = (P - 1) as nat / n;
    lemma_fundamental_div_mod((P - 1) as int, n as int);
    assert(e * n == (P - 1) as nat) by {
        lemma_mul_is_commutative(n as int, e as int);
    }
    lemma_fpow_mul(c, e, n);
    lemma_fermat_modulus();
    assert(mpow(c as int, (P - 1) as nat, P as int) == 1);
    assert forall|i: int| 0 <= i < primes.len() implies fpow(fpow(c, e), (n / (#[trigger] primes[i] as nat)) as nat) != 1 by {
        let q = primes[i] as nat;
        lemma_fundamental_div_mod(n as int, q as int);
        let b = n / q;
        assert(n == q * b);
        assert((P - 1) as nat == q * (e * b)) by {
            lemma_mul_is_associative(q as int, b as int, e as int);
            lemma_mul_is_commutative(b as int, e as int);
            lemma_mul_is_commutative(e as int, n as int);
        }
        lemma_mul_is_commutative(q as int, (e * b) as int);
        lemma_fundamental_div_mod_converse((P - 1) as int, q as int, (e * b) as int, 0);
        lemma_fpow_mul(c, e, b);
    }
}

/// `x^e` over the integers is not negative for natural `x`.
pub proof fn lemma_fpow_nonneg(x: nat, e: nat)
    ensures
        pow(x as int, e) >= 0,
{
    lemma_pow_positive_or_zero(x, e);
}

} // verus!
