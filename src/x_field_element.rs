use crate::b_field_element::{fadd, fmul, fneg, fsub, BFieldElement};
use vstd::prelude::*;

verus! {

/// Coefficients of the product of two elements of the extension, reduced modulo
/// `X^3 - X + 1` (so `X^3 = X - 1` and `X^4 = X^2 - X`).
pub open spec fn x_mul_spec(a: Seq<nat>, b: Seq<nat>) -> Seq<nat> {
    let c0 = fmul(a[0], b[0]);
    let c1 = fadd(fmul(a[0], b[1]), fmul(a[1], b[0]));
    let c2 = fadd(fadd(fmul(a[0], b[2]), fmul(a[1], b[1])), fmul(a[2], b[0]));
    let c3 = fadd(fmul(a[1], b[2]), fmul(a[2], b[1]));
    let c4 = fmul(a[2], b[2]);
    seq![fsub(c0, c3), fsub(fadd(c1, c3), c4), fadd(c2, c4)]
}

/// An element of the cubic extension field `F_p[X] / (X^3 - X + 1)`, by its three
/// coefficients over the base field, constant term first.
#[derive(Debug, Copy, Clone)]
pub struct XFieldElement {
    pub coefficients: [BFieldElement; 3],
}

impl XFieldElement {
    /// The canonical values of the coefficients.
    pub open spec fn spec_coeffs(&self) -> Seq<nat> {
        seq![self.coefficients[0]@, self.coefficients[1]@, self.coefficients[2]@]
    }

    pub fn new(coefficients: [BFieldElement; 3]) -> (r: Self)
        ensures
            r.coefficients == coefficients,
    {
        XFieldElement { coefficients }
    }

    /// The base-field element `b` as an element of the extension.
    pub fn new_const(b: BFieldElement) -> (r: Self)
        ensures
            r.spec_coeffs() == seq![b@, 0nat, 0nat],
    {
        let zero = BFieldElement::ring_zero();
        XFieldElement { coefficients: [b, zero, zero] }
    }

    pub fn ring_zero() -> (r: Self)
        ensures
            r.spec_coeffs() == seq![0nat, 0nat, 0nat],
    {
        Self::new_const(BFieldElement::ring_zero())
    }

    pub fn ring_one() -> (r: Self)
        ensures
            r.spec_coeffs() == seq![1nat, 0nat, 0nat],
    {
        Self::new_const(BFieldElement::ring_one())
    }

    pub fn add(&self, other: &Self) -> (r: Self)
        ensures
            r.spec_coeffs() == seq![
                fadd(self.spec_coeffs()[0], other.spec_coeffs()[0]),
                fadd(self.spec_coeffs()[1], other.spec_coeffs()[1]),
                fadd(self.spec_coeffs()[2], other.spec_coeffs()[2]),
            ],
    {
        let a = &self.coefficients;
        let b = &other.coefficients;
        XFieldElement { coefficients: [a[0].add(b[0]), a[1].add(b[1]), a[2].add(b[2])] }
    }

    pub fn sub(&self, other: &Self) -> (r: Self)
        ensures
            r.spec_coeffs() == seq![
                fsub(self.spec_coeffs()[0], other.spec_coeffs()[0]),
                fsub(self.spec_coeffs()[1], other.spec_coeffs()[1]),
                fsub(self.spec_coeffs()[2], other.spec_coeffs()[2]),
            ],
    {
        let a = &self.coefficients;
        let b = &other.coefficients;
        XFieldElement { coefficients: [a[0].sub(b[0]), a[1].sub(b[1]), a[2].sub(b[2])] }
    }

    pub fn neg(&self) -> (r: Self)
        ensures
            r.spec_coeffs() == seq![
                fneg(self.spec_coeffs()[0]),
                fneg(self.spec_coeffs()[1]),
                fneg(self.spec_coeffs()[2]),
            ],
    {
        let a = &self.coefficients;
        XFieldElement { coefficients: [a[0].neg(), a[1].neg(), a[2].neg()] }
    }

    /// The product modulo `X^3 - X + 1`.
    pub fn mul(&self, other: &Self) -> (r: Self)
        ensures
            r.spec_coeffs() == x_mul_spec(self.spec_coeffs(), other.spec_coeffs()),
    {
        let a = &self.coefficients;
        let b = &other.coefficients;
        let c0 = a[0].mul(b[0]);
        let c1 = a[0].mul(b[1]).add(a[1].mul(b[0]));
        let c2 = a[0].mul(b[2]).add(a[1].mul(b[1])).add(a[2].mul(b[0]));
        let c3 = a[1].mul(b[2]).add(a[2].mul(b[1]));
        let c4 = a[2].mul(b[2]);
        let r = XFieldElement { coefficients: [c0.sub(c3), c1.add(c3).sub(c4), c2.add(c4)] };
        assert(r.spec_coeffs() =~= x_mul_spec(self.spec_coeffs(), other.spec_coeffs()));
        r
    }
}

} // verus!
