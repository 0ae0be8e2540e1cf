use crate::b_field_element::{
    fadd, fmul, fneg, fpow, fsub, lemma_field_laws, lemma_inverse, lemma_no_zero_divisors, BFieldElement, P,
};
use crate::rescue_prime::values;
use vstd::prelude::*;

verus! {

/// `c[0] + x * (c[1] + x * (...))`.
pub open spec fn horner(c: Seq<nat>, x: nat) -> nat
    decreases c.len(),
{
    if c.len() == 0 {
        0
    } else {
        fadd(c[0], fmul(x, horner(c.drop_first(), x)))
    }
}

/// Coefficient `k` of `c`, zero past its end.
pub open spec fn coeff(c: Seq<nat>, k: int) -> nat {
    if 0 <= k < c.len() {
        c[k]
    } else {
        0
    }
}

/// The coefficients of `(X - r) * c`.
pub open spec fn mul_linear(c: Seq<nat>, r: nat) -> Seq<nat> {
    Seq::new(c.len() + 1, |k: int| fsub(coeff(c, k - 1), fmul(r, coeff(c, k))))
}

/// `prod_{j < upto, j != i} (X - xs[j])`.
pub open spec fn basis(xs: Seq<nat>, i: int, upto: int) -> Seq<nat>
    decreases upto,
{
    if upto <= 0 {
        seq![1nat]
    } else if upto - 1 == i {
        basis(xs, i, upto - 1)
    } else {
        mul_linear(basis(xs, i, upto - 1), xs[upto - 1])
    }
}

/// `prod_{j < upto, j != i} (xs[i] - xs[j])`.
pub open spec fn denominator(xs: Seq<nat>, i: int, upto: int) -> nat
    decreases upto,
{
    if upto <= 0 {
        1
    } else if upto - 1 == i {
        denominator(xs, i, upto - 1)
    } else {
        fmul(denominator(xs, i, upto - 1), fsub(xs[i], xs[upto - 1]))
    }
}

/// Coefficient `k` of the Lagrange interpolant through the first `upto` points:
/// `sum_i ys[i] / denominator_i * basis_i[k]`.
pub open spec fn lagrange_coeff(xs: Seq<nat>, ys: Seq<nat>, upto: int, k: int) -> nat
    decreases upto,
{
    if upto <= 0 {
        0
    } else {
        let i = upto - 1;
        let scale = fmul(ys[i], fpow(denominator(xs, i, xs.len() as int), (P - 2) as nat));
        fadd(
            lagrange_coeff(xs, ys, upto - 1, k),
            fmul(scale, coeff(basis(xs, i, xs.len() as int), k)),
        )
    }
}

/// A univariate polynomial, by its coefficients from the constant term up.
#[derive(Debug, Clone)]
pub struct Polynomial {
    pub coefficients: Vec<BFieldElement>,
}

impl Polynomial {
    pub fn new(coefficients: Vec<BFieldElement>) -> (r: Self)
        ensures
            r.coefficients@ == coefficients@,
    {
        Polynomial { coefficients }
    }

    /// The value at `x`, by Horner's rule.
    pub fn evaluate(&self, x: &BFieldElement) -> (r: BFieldElement)
        ensures
            r@ == horner(values(self.coefficients@), x@),
    {
        let c = &self.coefficients;
        let ghost cv = values(c@);
        let mut acc = BFieldElement::ring_zero();
        let mut i: usize = c.len();
        assert(cv.subrange(c.len() as int, c.len() as int) =~= Seq::<nat>::empty());
        while i > 0
            invariant
                0 <= i <= c.len(),
                cv == values(c@),
                acc@ == horner(cv.subrange(i as int, c.len() as int), x@),
            decreases i,
        {
            i = i - 1;
            assert(cv.subrange(i as int, c.len() as int).drop_first() =~= cv.subrange(
                i + 1,
                c.len() as int,
            ));
            acc = c[i].add(x.mul(acc));
        }
        assert(cv.subrange(0, c.len() as int) =~= cv);
        acc
    }
}

/// `(X - r) * c`, on coefficient vectors.
fn mul_by_linear(c: &Vec<BFieldElement>, r: BFieldElement) -> (out: Vec<BFieldElement>)
    requires
        c.len() < usize::MAX,
    ensures
        out.len() == c.len() + 1,
        values(out@) == mul_linear(values(c@), r@),
{
    let mut out: Vec<BFieldElement> = Vec::new();
    let mut k: usize = 0;
    let zero = BFieldElement::ring_zero();
    while k <= c.len()
        invariant
            0 <= k <= c.len() + 1,
            c.len() < usize::MAX,
            zero@ == 0,
            out.len() == k,
            forall|j: int|
                0 <= j < k ==> out[j]@ == fsub(coeff(values(c@), j - 1), fmul(r@, coeff(values(c@), j))),
        decreases c.len() + 1 - k,
    {
        let lower = if k >= 1 {
            c[k - 1]
        } else {
            zero
        };
        let here = if k < c.len() {
            c[k]
        } else {
            zero
        };
        assert(coeff(values(c@), k as int - 1) == lower@);
        assert(coeff(values(c@), k as int) == here@);
        out.push(lower.sub(r.mul(here)));
        k = k + 1;
    }
    assert(values(out@) =~= mul_linear(values(c@), r@));
    out
}

/// The point whose first coordinates are the `x` values.
pub open spec fn xs_of(points: Seq<(BFieldElement, BFieldElement)>) -> Seq<nat> {
    points.map_values(|p: (BFieldElement, BFieldElement)| p.0@)
}

pub open spec fn ys_of(points: Seq<(BFieldElement, BFieldElement)>) -> Seq<nat> {
    points.map_values(|p: (BFieldElement, BFieldElement)| p.1@)
}

impl Polynomial {
    /// The Lagrange interpolant through `points`, whose `x` values are distinct:
    /// `sum_i y_i * prod_{j != i} (X - x_j) / (x_i - x_j)`, with `points.len()`
    /// coefficients.
    pub fn slow_lagrange_interpolation(points: &Vec<(BFieldElement, BFieldElement)>) -> (r: Self)
        requires
            1 <= points.len() < usize::MAX,
            forall|i: int, j: int| 0 <= i < j < points.len() ==> points[i].0 != points[j].0,
        ensures
            r.coefficients.len() == points.len(),
            forall|k: int|
                0 <= k < points.len() ==> r.coefficients[k]@ == lagrange_coeff(
                    xs_of(points@),
                    ys_of(points@),
                    points.len() as int,
                    k,
                ),
            forall|m: int|
                0 <= m < points.len() ==> horner(values(r.coefficients@), #[trigger] points[m].0@)
                    == points[m].1@,
    {
        let n = points.len();
        let ghost xs = xs_of(points@);
        let ghost ys = ys_of(points@);
        let mut q: usize = 0;
        while q < n
            invariant
                n == points.len(),
                0 <= q <= n,
                forall|k: int| 0 <= k < q ==> #[trigger] points[k].0@ < P && points[k].1@ < P,
            decreases n - q,
        {
            // Reading the representatives brings in that they are below `P`.
            let pt = points[q];
            let _x = pt.0.value();
            let _y = pt.1.value();
            q = q + 1;
        }
        proof {
            assert forall|a: int, b: int| 0 <= a < b < xs.len() implies xs[a] != xs[b] by {
                BFieldElement::lemma_view(points[a].0, points[b].0);
            }
            assert forall|k: int| 0 <= k < n implies #[trigger] xs[k] < P && ys[k] < P by {
                assert(xs[k] == points[k].0@);
                assert(ys[k] == points[k].1@);
            }
        }
        let mut coefficients: Vec<BFieldElement> = Vec::new();
        while coefficients.len() < n
            invariant
                coefficients.len() <= n,
                forall|k: int| 0 <= k < coefficients.len() ==> coefficients[k]@ == 0,
            decreases n - coefficients.len(),
        {
            coefficients.push(BFieldElement::ring_zero());
        }
        let mut i: usize = 0;
        while i < n
            invariant
                n == points.len(),
                n < usize::MAX,
                0 <= i <= n,
                xs == xs_of(points@),
                ys == ys_of(points@),
                coefficients.len() == n,
                forall|k: int|
                    0 <= k < n ==> coefficients[k]@ == lagrange_coeff(xs, ys, i as int, k),
                forall|k: int| 0 <= k < n ==> #[trigger] xs[k] < P && ys[k] < P,
                forall|a: int, b: int| 0 <= a < b < n ==> xs[a] != xs[b],
            decreases n - i,
        {
            let x = points[i].0;
            let mut my_pol: Vec<BFieldElement> = Vec::new();
            my_pol.push(BFieldElement::ring_one());
            let mut divisor = BFieldElement::ring_one();
            let mut j: usize = 0;
            assert(values(my_pol@) =~= seq![1nat]);
            while j < n
                invariant
                    n == points.len(),
                    0 <= i < n,
                    0 <= j <= n,
                    xs == xs_of(points@),
                    x@ == xs[i as int],
                    values(my_pol@) == basis(xs, i as int, j as int),
                    forall|k: int| 0 <= k < n ==> #[trigger] xs[k] < P,
                    forall|a: int, b: int| 0 <= a < b < n ==> xs[a] != xs[b],
                    my_pol.len() <= j + 1,
                    n < usize::MAX,
                    divisor@ == denominator(xs, i as int, j as int),
                decreases n - j,
            {
                if j != i {
                    let root = points[j].0;
                    my_pol = mul_by_linear(&my_pol, root);
                    divisor = divisor.mul(x.sub(root));
                }
                j = j + 1;
            }
            proof {
                lemma_denominator_nonzero(xs, i as int, n as int);
            }
            let scale = points[i].1.mul(divisor.inverse());
            let mut k: usize = 0;
            proof {
                lemma_basis_len(xs, i as int, n as int);
            }
            while k < n
                invariant
                    n == points.len(),
                    0 <= i < n,
                    0 <= k <= n,
                    xs == xs_of(points@),
                    ys == ys_of(points@),
                    coefficients.len() == n,
                    values(my_pol@) == basis(xs, i as int, n as int),
                    my_pol.len() == n,
                    scale@ == fmul(ys[i as int], fpow(denominator(xs, i as int, n as int), (P - 2) as nat)),
                    forall|q: int|
                        0 <= q < k ==> coefficients[q]@ == lagrange_coeff(xs, ys, i + 1, q),
                    forall|q: int|
                        k <= q < n ==> coefficients[q]@ == lagrange_coeff(xs, ys, i as int, q),
                decreases n - k,
            {
                assert(coeff(basis(xs, i as int, n as int), k as int) == my_pol[k as int]@);
                assert(lagrange_coeff(xs, ys, i + 1, k as int) == fadd(
                    lagrange_coeff(xs, ys, i as int, k as int),
                    fmul(scale@, coeff(basis(xs, i as int, xs.len() as int), k as int)),
                ));
                let updated = coefficients[k].add(scale.mul(my_pol[k]));
                coefficients.set(k, updated);
                k = k + 1;
            }
            i = i + 1;
        }
        proof {
            assert(values(coefficients@) =~= Seq::new(
                xs.len(),
                |k: int| lagrange_coeff(xs, ys, xs.len() as int, k),
            ));
            assert forall|m: int| 0 <= m < points.len() implies horner(
                values(coefficients@),
                #[trigger] points[m].0@,
            ) == points[m].1@ by {
                lemma_lagrange_interpolates(xs, ys, m);
            }
        }
        Polynomial { coefficients }
    }
}

proof fn lemma_basis_len(xs: Seq<nat>, i: int, upto: int)
    requires
        0 <= i < upto <= xs.len(),
    ensures
        basis(xs, i, upto).len() == upto,
    decreases upto,
{
    if upto - 1 > i {
        lemma_basis_len(xs, i, upto - 1);
    } else {
        lemma_basis_len_below(xs, i, upto - 1);
    }
}

proof fn lemma_basis_len_below(xs: Seq<nat>, i: int, upto: int)
    requires
        0 <= upto <= i,
        upto <= xs.len(),
    ensures
        basis(xs, i, upto).len() == upto + 1,
    decreases upto,
{
    if upto > 0 {
        lemma_basis_len_below(xs, i, upto - 1);
    }
}

/// `c` without its trailing zero coefficients.
pub open spec fn trim(c: Seq<nat>) -> Seq<nat>
    decreases c.len(),
{
    if c.len() > 0 && c.last() == 0 {
        trim(c.drop_last())
    } else {
        c
    }
}

impl Polynomial {
    /// The sum, coefficient by coefficient, without trailing zero coefficients.
    pub fn add(&self, other: &Self) -> (r: Self)
        ensures
            values(r.coefficients@) == trim(
                Seq::new(
                    if self.coefficients.len() >= other.coefficients.len() {
                        self.coefficients.len() as nat
                    } else {
                        other.coefficients.len() as nat
                    },
                    |k: int|
                        fadd(
                            coeff(values(self.coefficients@), k),
                            coeff(values(other.coefficients@), k),
                        ),
                ),
            ),
    {
        let a = &self.coefficients;
        let b = &other.coefficients;
        let n = if a.len() >= b.len() {
            a.len()
        } else {
            b.len()
        };
        let zero = BFieldElement::ring_zero();
        let mut out: Vec<BFieldElement> = Vec::new();
        let mut k: usize = 0;
        while k < n
            invariant
                0 <= k <= n,
                n == if a.len() >= b.len() {
                    a.len()
                } else {
                    b.len()
                },
                zero@ == 0,
                out.len() == k,
                forall|q: int|
                    0 <= q < k ==> out[q]@ == fadd(coeff(values(a@), q), coeff(values(b@), q)),
            decreases n - k,
        {
            let x = if k < a.len() {
                a[k]
            } else {
                zero
            };
            let y = if k < b.len() {
                b[k]
            } else {
                zero
            };
            assert(coeff(values(a@), k as int) == x@);
            assert(coeff(values(b@), k as int) == y@);
            out.push(x.add(y));
            k = k + 1;
        }
        let ghost full = values(out@);
        assert(full =~= Seq::new(
            n as nat,
            |k: int| fadd(coeff(values(a@), k), coeff(values(b@), k)),
        ));
        while out.len() > 0 && out[out.len() - 1].is_zero()
            invariant
                trim(values(out@)) == trim(full),
            decreases out.len(),
        {
            let ghost before = values(out@);
            out.pop();
            assert(values(out@) =~= before.drop_last());
        }
        Polynomial { coefficients: out }
    }
}

/// Coefficient `k` of the product of `a` and `b`, summed over the first `rows`
/// coefficients of `a`: `sum_{i < rows} a[i] * b[k - i]`.
pub open spec fn product_coeff(a: Seq<nat>, b: Seq<nat>, rows: int, k: int) -> nat
    decreases rows,
{
    if rows <= 0 {
        0
    } else {
        fadd(product_coeff(a, b, rows - 1, k), fmul(coeff(a, rows - 1), coeff(b, k - (rows - 1))))
    }
}

impl Polynomial {
    /// Every coefficient multiplied by `factor`.
    pub fn scalar_mul(&self, factor: BFieldElement) -> (r: Self)
        ensures
            r.coefficients.len() == self.coefficients.len(),
            forall|k: int|
                0 <= k < self.coefficients.len() ==> r.coefficients[k]@ == fmul(
                    self.coefficients[k]@,
                    factor@,
                ),
    {
        let mut out: Vec<BFieldElement> = Vec::new();
        let mut k: usize = 0;
        while k < self.coefficients.len()
            invariant
                0 <= k <= self.coefficients.len(),
                out.len() == k,
                forall|q: int| 0 <= q < k ==> out[q]@ == fmul(self.coefficients[q]@, factor@),
            decreases self.coefficients.len() - k,
        {
            out.push(self.coefficients[k].mul(factor));
            k = k + 1;
        }
        Polynomial { coefficients: out }
    }

    /// The product, by schoolbook multiplication: `a.len() + b.len() - 1` coefficients,
    /// none when a factor has none.
    pub fn mul(&self, other: &Self) -> (r: Self)
        requires
            self.coefficients.len() + other.coefficients.len() < usize::MAX,
        ensures
            self.coefficients.len() == 0 || other.coefficients.len() == 0 ==> r.coefficients.len() == 0,
            self.coefficients.len() > 0 && other.coefficients.len() > 0 ==> r.coefficients.len()
                == self.coefficients.len() + other.coefficients.len() - 1,
            forall|k: int|
                0 <= k < r.coefficients.len() ==> r.coefficients[k]@ == product_coeff(
                    values(self.coefficients@),
                    values(other.coefficients@),
                    self.coefficients.len() as int,
                    k,
                ),
    {
        let a = &self.coefficients;
        let b = &other.coefficients;
        let mut out: Vec<BFieldElement> = Vec::new();
        if a.len() == 0 || b.len() == 0 {
            return Polynomial { coefficients: out };
        }
        let ghost av = values(a@);
        let ghost bv = values(b@);
        let n = a.len() + b.len() - 1;
        while out.len() < n
            invariant
                out.len() <= n,
                forall|q: int| 0 <= q < out.len() ==> out[q]@ == 0,
            decreases n - out.len(),
        {
            out.push(BFieldElement::ring_zero());
        }
        let mut i: usize = 0;
        while i < a.len()
            invariant
                0 <= i <= a.len(),
                n == a.len() + b.len() - 1,
                b.len() > 0,
                out.len() == n,
                av == values(a@),
                bv == values(b@),
                forall|q: int| 0 <= q < n ==> out[q]@ == product_coeff(av, bv, i as int, q),
            decreases a.len() - i,
        {
            let mut j: usize = 0;
            while j < b.len()
                invariant
                    0 <= i < a.len(),
                    0 <= j <= b.len(),
                    n == a.len() + b.len() - 1,
                    out.len() == n,
                    av == values(a@),
                    bv == values(b@),
                    forall|q: int|
                        0 <= q < n ==> out[q]@ == if i <= q < i + j {
                            product_coeff(av, bv, i + 1, q)
                        } else {
                            product_coeff(av, bv, i as int, q)
                        },
                decreases b.len() - j,
            {
                let k = i + j;
                assert(coeff(av, i as int) == a[i as int]@);
                assert(coeff(bv, k - i) == b[j as int]@);
                let updated = out[k].add(a[i].mul(b[j]));
                out.set(k, updated);
                j = j + 1;
            }
            proof {
                assert forall|q: int| 0 <= q < n && !(i <= q < i + b.len()) implies product_coeff(
                    av,
                    bv,
                    i + 1,
                    q,
                ) == product_coeff(av, bv, i as int, q) by {
                    assert(coeff(bv, q - i) == 0);
                    lemma_fadd_zero(product_coeff(av, bv, i as int, q), coeff(av, i as int));
                }
            }
            i = i + 1;
        }
        Polynomial { coefficients: out }
    }
}

proof fn lemma_fadd_zero(x: nat, c: nat)
    ensures
        x < P ==> fadd(x, fmul(c, 0)) == x,
{
    if x < P {
        vstd::arithmetic::div_mod::lemma_small_mod(x, P as nat);
    }
}

/// `fsub` is adding the negation.
proof fn lemma_fsub_is_add_neg(x: nat, y: nat)
    requires
        x < P,
        y < P,
    ensures
        fsub(x, y) == fadd(x, fneg(y)),
{
    vstd::arithmetic::div_mod::lemma_add_mod_noop(x as int, -y, P as int);
    vstd::arithmetic::div_mod::lemma_small_mod(x, P as nat);
    vstd::arithmetic::div_mod::lemma_mod_bound(-y, P as int);
}

/// Evaluation adds: `horner(a + b) = horner(a) + horner(b)` for coefficient vectors of
/// one length.
proof fn lemma_horner_add(a: Seq<nat>, b: Seq<nat>, x: nat)
    requires
        a.len() == b.len(),
        x < P,
    ensures
        horner(Seq::new(a.len(), |k: int| fadd(a[k], b[k])), x) == fadd(horner(a, x), horner(b, x)),
    decreases a.len(),
{
    let c = Seq::new(a.len(), |k: int| fadd(a[k], b[k]));
    if a.len() > 0 {
        let a1 = a.drop_first();
        let b1 = b.drop_first();
        assert(c.drop_first() =~= Seq::new(a1.len(), |k: int| fadd(a1[k], b1[k])));
        lemma_horner_add(a1, b1, x);
        let ha = horner(a1, x);
        let hb = horner(b1, x);
        lemma_horner_canonical(a1, x);
        lemma_horner_canonical(b1, x);
        let a0 = a[0] % (P as nat);
        let b0 = b[0] % (P as nat);
        lemma_field_laws(x, ha, hb);
        let xa = fmul(x, ha);
        let xb = fmul(x, hb);
        // (a0 + b0) + (xa + xb) = (a0 + xa) + (b0 + xb)
        vstd::arithmetic::div_mod::lemma_add_mod_noop(a[0] as int, b[0] as int, P as int);
        vstd::arithmetic::div_mod::lemma_add_mod_noop(a[0] as int, xa as int, P as int);
        vstd::arithmetic::div_mod::lemma_add_mod_noop(b[0] as int, xb as int, P as int);
        vstd::arithmetic::div_mod::lemma_add_mod_noop((a[0] + b[0]) as int, (xa + xb) as int, P as int);
        vstd::arithmetic::div_mod::lemma_add_mod_noop((a[0] + xa) as int, (b[0] + xb) as int, P as int);
        vstd::arithmetic::div_mod::lemma_mod_bound((a[0] + b[0]) as int, P as int);
        vstd::arithmetic::div_mod::lemma_mod_bound((xa + xb) as int, P as int);
        vstd::arithmetic::div_mod::lemma_small_mod(xa, P as nat);
        vstd::arithmetic::div_mod::lemma_small_mod(xb, P as nat);
        vstd::arithmetic::div_mod::lemma_mod_mod((a[0] + b[0]) as int, P as int, 1);
    }
}

proof fn lemma_horner_canonical(c: Seq<nat>, x: nat)
    ensures
        horner(c, x) < P,
    decreases c.len(),
{
}

/// Horner evaluation over the integers.
pub open spec fn horner_int(c: Seq<int>, x: int) -> int
    decreases c.len(),
{
    if c.len() == 0 {
        0
    } else {
        c[0] + x * horner_int(c.drop_first(), x)
    }
}

/// Evaluation in the field is integer evaluation reduced modulo `P`, for coefficients
/// that agree modulo `P`.
proof fn lemma_horner_congruent(a: Seq<nat>, b: Seq<int>, x: nat)
    requires
        a.len() == b.len(),
        x < P,
        forall|k: int| 0 <= k < a.len() ==> #[trigger] (a[k] as int) % (P as int) == b[k] % (P as int),
    ensures
        horner(a, x) as int == horner_int(b, x as int) % (P as int),
    decreases a.len(),
{
    if a.len() == 0 {
        vstd::arithmetic::div_mod::lemma_small_mod(0, P as nat);
    } else {
        let a1 = a.drop_first();
        let b1 = b.drop_first();
        assert forall|k: int| 0 <= k < a1.len() implies #[trigger] (a1[k] as int) % (P as int) == b1[k] % (P as int) by {
            assert(a1[k] == a[k + 1]);
            assert(b1[k] == b[k + 1]);
        }
        lemma_horner_congruent(a1, b1, x);
        let h = horner_int(b1, x as int);
        let p = P as int;
        assert(a[0] as int % p == b[0] % p);
        vstd::arithmetic::div_mod::lemma_mul_mod_noop_right(x as int, h, p);
        vstd::arithmetic::div_mod::lemma_add_mod_noop(a[0] as int, (x * horner(a1, x)) as int, p);
        vstd::arithmetic::div_mod::lemma_add_mod_noop(b[0], x * h, p);
        vstd::arithmetic::div_mod::lemma_mod_mod(x * h, p, 1);
    }
}

/// The coefficients as integers.
pub open spec fn as_ints(c: Seq<nat>) -> Seq<int> {
    c.map_values(|v: nat| v as int)
}

/// The integer coefficients of `(X - r) * c`.
pub open spec fn mul_linear_int(c: Seq<nat>, r: nat) -> Seq<int> {
    Seq::new(c.len() + 1, |k: int| coeff(c, k - 1) - r * coeff(c, k))
}

proof fn lemma_horner_int_mul_linear(c: Seq<nat>, r: nat, x: int)
    ensures
        horner_int(mul_linear_int(c, r), x) == (x - r) * horner_int(as_ints(c), x),
    decreases c.len(),
{
    let m = mul_linear_int(c, r);
    let ci = as_ints(c);
    if c.len() == 0 {
        assert(m.drop_first() =~= Seq::<int>::empty());
        assert(m[0] == 0);
        assert(as_ints(c).len() == 0);
        assert(horner_int(as_ints(c), x) == 0);
        assert(horner_int(m.drop_first(), x) == 0);
        assert(horner_int(m, x) == 0 + x * 0);
        assert((x - r) * 0 == 0);
    } else {
        let c1 = c.drop_first();
        lemma_horner_int_mul_linear(c1, r, x);
        let m1 = mul_linear_int(c1, r);
        let h1 = horner_int(as_ints(c1), x);
        assert(ci.drop_first() =~= as_ints(c1));
        // m.drop_first() is m1 with c[0] added to its constant term.
        let d = m.drop_first();
        assert(d.len() == m1.len());
        assert(d[0] == c[0] + m1[0]);
        assert(d.drop_first() =~= m1.drop_first()) by {
            assert forall|j: int| 0 <= j < d.len() - 1 implies d.drop_first()[j] == m1.drop_first()[j] by {
                assert(coeff(c, j + 1) == coeff(c1, j));
                assert(coeff(c, j + 2) == coeff(c1, j + 1));
            }
        }
        assert(horner_int(d, x) == c[0] + horner_int(m1, x));
        assert(m[0] == -(r * c[0]));
        assert(horner_int(m, x) == m[0] + x * horner_int(d, x));
        assert(horner_int(ci, x) == c[0] + x * h1);
        assert(horner_int(m, x) == (x - r) * horner_int(ci, x)) by (nonlinear_arith)
            requires
                horner_int(m, x) == -(r * c[0]) + x * (c[0] + (x - r) * h1),
                horner_int(ci, x) == c[0] + x * h1,
        ;
        assert(ci == as_ints(c));
    }
}

/// Evaluating `(X - r) * c` at `x` gives `(x - r) * c(x)`.
proof fn lemma_horner_mul_linear(c: Seq<nat>, r: nat, x: nat)
    requires
        r < P,
        x < P,
        forall|k: int| 0 <= k < c.len() ==> #[trigger] c[k] < P,
    ensures
        horner(mul_linear(c, r), x) == fmul(fsub(x, r), horner(c, x)),
{
    let p = P as int;
    let m = mul_linear(c, r);
    let mi = mul_linear_int(c, r);
    assert forall|k: int| 0 <= k < m.len() implies #[trigger] (m[k] as int) % p == mi[k] % p by {
        let u = coeff(c, k - 1) as int;
        let w = (r * coeff(c, k)) as int;
        vstd::arithmetic::div_mod::lemma_mod_bound(u - w % p, p);
        vstd::arithmetic::div_mod::lemma_sub_mod_noop_right(u, w, p);
        vstd::arithmetic::div_mod::lemma_small_mod(((u - w % p) % p) as nat, P as nat);
    }
    lemma_horner_congruent(m, mi, x);
    lemma_horner_int_mul_linear(c, r, x as int);
    let ci = as_ints(c);
    assert forall|k: int| 0 <= k < c.len() implies #[trigger] (c[k] as int) % p == ci[k] % p by {}
    lemma_horner_congruent(c, ci, x);
    let h = horner_int(ci, x as int);
    vstd::arithmetic::div_mod::lemma_mul_mod_noop(x - r, h, p);
    vstd::arithmetic::div_mod::lemma_mod_bound(x - r, p);
}

/// `prod_{j < upto, j != i} (x - xs[j])`.
pub open spec fn basis_value(xs: Seq<nat>, i: int, upto: int, x: nat) -> nat
    decreases upto,
{
    if upto <= 0 {
        1
    } else if upto - 1 == i {
        basis_value(xs, i, upto - 1, x)
    } else {
        fmul(fsub(x, xs[upto - 1]), basis_value(xs, i, upto - 1, x))
    }
}

proof fn lemma_basis_canonical(xs: Seq<nat>, i: int, upto: int)
    requires
        upto <= xs.len(),
    ensures
        forall|k: int| 0 <= k < basis(xs, i, upto).len() ==> #[trigger] basis(xs, i, upto)[k] < P,
    decreases upto,
{
    if upto <= 0 {
        assert(seq![1nat][0] == 1);
    } else if upto - 1 == i {
        lemma_basis_canonical(xs, i, upto - 1);
    } else {
        lemma_basis_canonical(xs, i, upto - 1);
        let b = basis(xs, i, upto - 1);
        let r = xs[upto - 1];
        assert forall|k: int| 0 <= k < mul_linear(b, r).len() implies #[trigger] mul_linear(b, r)[k] < P by {
            vstd::arithmetic::div_mod::lemma_mod_bound(coeff(b, k - 1) - fmul(r, coeff(b, k)), P as int);
        }
    }
}

proof fn lemma_basis_horner(xs: Seq<nat>, i: int, upto: int, x: nat)
    requires
        upto <= xs.len(),
        x < P,
        forall|k: int| 0 <= k < xs.len() ==> #[trigger] xs[k] < P,
    ensures
        horner(basis(xs, i, upto), x) == basis_value(xs, i, upto, x),
    decreases upto,
{
    if upto <= 0 {
        assert(seq![1nat].drop_first() =~= Seq::<nat>::empty());
        vstd::arithmetic::div_mod::lemma_small_mod(1, P as nat);
        vstd::arithmetic::div_mod::lemma_small_mod(0, P as nat);
        assert(x * 0 == 0);
        assert(basis(xs, i, upto) == seq![1nat]);
        assert(horner(seq![1nat].drop_first(), x) == 0);
        assert(fmul(x, 0) == 0);
        assert(horner(seq![1nat], x) == fadd(1, fmul(x, 0)));
        assert(horner(basis(xs, i, upto), x) == 1);
    } else if upto - 1 == i {
        lemma_basis_horner(xs, i, upto - 1, x);
    } else {
        lemma_basis_horner(xs, i, upto - 1, x);
        lemma_basis_canonical(xs, i, upto - 1);
        lemma_horner_mul_linear(basis(xs, i, upto - 1), xs[upto - 1], x);
        assert(horner(basis(xs, i, upto), x) == fmul(fsub(x, xs[upto - 1]), horner(basis(xs, i, upto - 1), x)));
    }
}

proof fn lemma_basis_value_own(xs: Seq<nat>, i: int, upto: int)
    requires
        0 <= i < xs.len(),
        upto <= xs.len(),
        forall|k: int| 0 <= k < xs.len() ==> #[trigger] xs[k] < P,
    ensures
        basis_value(xs, i, upto, xs[i]) == denominator(xs, i, upto),
    decreases upto,
{
    if upto > 0 {
        lemma_basis_value_own(xs, i, upto - 1);
        if upto - 1 != i {
            lemma_denominator_canonical(xs, i, upto - 1);
            lemma_field_laws(fsub(xs[i], xs[upto - 1]), denominator(xs, i, upto - 1), 0);
        }
    }
}

proof fn lemma_denominator_canonical(xs: Seq<nat>, i: int, upto: int)
    ensures
        denominator(xs, i, upto) < P,
    decreases upto,
{
    if upto > 0 {
        lemma_denominator_canonical(xs, i, upto - 1);
    }
}

proof fn lemma_basis_value_other(xs: Seq<nat>, i: int, upto: int, m: int)
    requires
        0 <= m < upto <= xs.len(),
        m != i,
        forall|k: int| 0 <= k < xs.len() ==> #[trigger] xs[k] < P,
    ensures
        basis_value(xs, i, upto, xs[m]) == 0,
    decreases upto,
{
    if upto - 1 == m {
        vstd::arithmetic::div_mod::lemma_small_mod(0, P as nat);
        assert(fsub(xs[m], xs[m]) == 0);
    } else {
        lemma_basis_value_other(xs, i, upto - 1, m);
        if upto - 1 != i {
            vstd::arithmetic::div_mod::lemma_small_mod(0, P as nat);
        }
    }
}

proof fn lemma_denominator_nonzero(xs: Seq<nat>, i: int, upto: int)
    requires
        0 <= i < xs.len(),
        upto <= xs.len(),
        forall|k: int| 0 <= k < xs.len() ==> #[trigger] xs[k] < P,
        forall|a: int, b: int| 0 <= a < b < xs.len() ==> xs[a] != xs[b],
    ensures
        denominator(xs, i, upto) != 0,
    decreases upto,
{
    if upto > 0 {
        lemma_denominator_nonzero(xs, i, upto - 1);
        let j = upto - 1;
        if j != i {
            let d = fsub(xs[i], xs[j]);
            assert(d != 0) by {
                let z = xs[i] as int - xs[j] as int;
                if z >= 0 {
                    vstd::arithmetic::div_mod::lemma_small_mod(z as nat, P as nat);
                } else {
                    vstd::arithmetic::div_mod::lemma_fundamental_div_mod_converse(z, P as int, -1, z + P as int);
                }
            }
            lemma_denominator_canonical(xs, i, upto - 1);
            lemma_no_zero_divisors(denominator(xs, i, upto - 1), d);
        }
    }
}

proof fn lemma_horner_scale(a: Seq<nat>, c: nat, x: nat)
    requires
        c < P,
        x < P,
        forall|k: int| 0 <= k < a.len() ==> #[trigger] a[k] < P,
    ensures
        horner(Seq::new(a.len(), |k: int| fmul(c, a[k])), x) == fmul(c, horner(a, x)),
    decreases a.len(),
{
    let sa = Seq::new(a.len(), |k: int| fmul(c, a[k]));
    if a.len() == 0 {
        vstd::arithmetic::div_mod::lemma_small_mod(0, P as nat);
        assert(c * 0 == 0);
    } else {
        let a1 = a.drop_first();
        assert(sa.drop_first() =~= Seq::new(a1.len(), |k: int| fmul(c, a1[k])));
        lemma_horner_scale(a1, c, x);
        let h = horner(a1, x);
        lemma_horner_canonical(a1, x);
        lemma_field_laws(c, a[0], fmul(x, h));
        lemma_field_laws(x, c, h);
        lemma_field_laws(c, x, h);
    }
}

proof fn lemma_horner_zeros(n: nat, x: nat)
    ensures
        horner(Seq::new(n, |k: int| 0nat), x) == 0,
    decreases n,
{
    vstd::arithmetic::div_mod::lemma_small_mod(0, P as nat);
    if n > 0 {
        assert(Seq::new(n, |k: int| 0nat).drop_first() =~= Seq::new((n - 1) as nat, |k: int| 0nat));
        lemma_horner_zeros((n - 1) as nat, x);
        assert(x * 0 == 0);
    }
}

/// The scale that point `j` gives its basis polynomial: `ys[j] / denominator_j`.
pub open spec fn lagrange_scale(xs: Seq<nat>, ys: Seq<nat>, j: int) -> nat {
    fmul(ys[j], fpow(denominator(xs, j, xs.len() as int), (P - 2) as nat))
}

/// `sum_{j < upto} scale_j * basis_j(x)`.
pub open spec fn lagrange_sum(xs: Seq<nat>, ys: Seq<nat>, upto: int, x: nat) -> nat
    decreases upto,
{
    if upto <= 0 {
        0
    } else {
        fadd(
            lagrange_sum(xs, ys, upto - 1, x),
            fmul(lagrange_scale(xs, ys, upto - 1), basis_value(xs, upto - 1, xs.len() as int, x)),
        )
    }
}

proof fn lemma_lagrange_horner(xs: Seq<nat>, ys: Seq<nat>, upto: int, x: nat)
    requires
        0 <= upto <= xs.len(),
        xs.len() == ys.len(),
        x < P,
        forall|k: int| 0 <= k < xs.len() ==> #[trigger] xs[k] < P,
    ensures
        horner(Seq::new(xs.len(), |k: int| lagrange_coeff(xs, ys, upto, k)), x) == lagrange_sum(
            xs,
            ys,
            upto,
            x,
        ),
    decreases upto,
{
    let n = xs.len();
    if upto == 0 {
        assert(Seq::new(n, |k: int| lagrange_coeff(xs, ys, 0, k)) =~= Seq::new(n, |k: int| 0nat));
        lemma_horner_zeros(n, x);
    } else {
        let j = upto - 1;
        lemma_lagrange_horner(xs, ys, upto - 1, x);
        let a = Seq::new(n, |k: int| lagrange_coeff(xs, ys, upto - 1, k));
        let b = basis(xs, j, n as int);
        lemma_basis_len(xs, j, n as int);
        lemma_basis_canonical(xs, j, n as int);
        let scale = lagrange_scale(xs, ys, j);
        let sb = Seq::new(n, |k: int| fmul(scale, b[k]));
        assert(Seq::new(n, |k: int| lagrange_coeff(xs, ys, upto, k)) =~= Seq::new(
            n,
            |k: int| fadd(a[k], sb[k]),
        )) by {
            assert forall|k: int| 0 <= k < n implies lagrange_coeff(xs, ys, upto, k) == fadd(a[k], sb[k]) by {
                assert(coeff(b, k) == b[k]);
            }
        }
        lemma_horner_add(a, sb, x);
        assert(b.len() == n);
        lemma_horner_scale(b, scale, x);
        lemma_basis_horner(xs, j, n as int, x);
    }
}

proof fn lemma_lagrange_sum_at_node(xs: Seq<nat>, ys: Seq<nat>, upto: int, m: int)
    requires
        0 <= upto <= xs.len(),
        0 <= m < xs.len(),
        xs.len() == ys.len(),
        forall|k: int| 0 <= k < xs.len() ==> #[trigger] xs[k] < P,
    ensures
        lagrange_sum(xs, ys, upto, xs[m]) == if m < upto {
            fmul(lagrange_scale(xs, ys, m), denominator(xs, m, xs.len() as int))
        } else {
            0
        },
    decreases upto,
{
    vstd::arithmetic::div_mod::lemma_small_mod(0, P as nat);
    if upto > 0 {
        let j = upto - 1;
        lemma_lagrange_sum_at_node(xs, ys, upto - 1, m);
        let prev = lagrange_sum(xs, ys, upto - 1, xs[m]);
        let t = fmul(lagrange_scale(xs, ys, j), basis_value(xs, j, xs.len() as int, xs[m]));
        if j == m {
            lemma_basis_value_own(xs, m, xs.len() as int);
            lemma_denominator_canonical(xs, m, xs.len() as int);
            lemma_field_laws(t, 0, 0);
            lemma_field_laws(0, t, 0);
        } else {
            lemma_basis_value_other(xs, j, xs.len() as int, m);
            assert(lagrange_scale(xs, ys, j) * 0 == 0);
            assert(t == 0);
            lemma_field_laws(prev, 0, 0);
            if m < upto - 1 {
                lemma_denominator_canonical(xs, m, xs.len() as int);
            }
        }
    }
}

/// The Lagrange interpolant takes the value `ys[m]` at `xs[m]`, for distinct `xs`.
pub proof fn lemma_lagrange_interpolates(xs: Seq<nat>, ys: Seq<nat>, m: int)
    requires
        0 <= m < xs.len(),
        xs.len() == ys.len(),
        forall|k: int| 0 <= k < xs.len() ==> #[trigger] xs[k] < P && ys[k] < P,
        forall|a: int, b: int| 0 <= a < b < xs.len() ==> xs[a] != xs[b],
    ensures
        horner(
            Seq::new(xs.len(), |k: int| lagrange_coeff(xs, ys, xs.len() as int, k)),
            xs[m],
        ) == ys[m],
{
    let n = xs.len() as int;
    lemma_lagrange_horner(xs, ys, n, xs[m]);
    lemma_lagrange_sum_at_node(xs, ys, n, m);
    let d = denominator(xs, m, n);
    lemma_denominator_nonzero(xs, m, n);
    lemma_denominator_canonical(xs, m, n);
    lemma_inverse(d);
    let inv = fpow(d, (P - 2) as nat);
    lemma_field_laws(ys[m], inv, d);
    lemma_field_laws(d, inv, 0);
    lemma_field_laws(ys[m], 1, 0);
}

/// Synthetic division of `c` (at least one coefficient) by `X - r`: the quotient, one
/// coefficient shorter, and the remainder.
pub open spec fn divide_linear(c: Seq<nat>, r: nat) -> (Seq<nat>, nat)
    decreases c.len(),
{
    if c.len() <= 1 {
        (Seq::empty(), if c.len() == 1 {
            c[0]
        } else {
            0
        })
    } else {
        let (q1, rem1) = divide_linear(c.drop_first(), r);
        (seq![rem1] + q1, fadd(c[0], fmul(r, rem1)))
    }
}

proof fn lemma_divide_linear(c: Seq<nat>, r: nat)
    requires
        c.len() >= 1,
        r < P,
        forall|k: int| 0 <= k < c.len() ==> #[trigger] c[k] < P,
    ensures
        divide_linear(c, r).0.len() == c.len() - 1,
        divide_linear(c, r).1 < P,
        forall|k: int| 0 <= k < divide_linear(c, r).0.len() ==> #[trigger] divide_linear(c, r).0[k] < P,
        forall|k: int|
            0 <= k < c.len() ==> #[trigger] c[k] == fadd(
                mul_linear(divide_linear(c, r).0, r)[k],
                if k == 0 {
                    divide_linear(c, r).1
                } else {
                    0
                },
            ),
    decreases c.len(),
{
    let p = P as int;
    vstd::arithmetic::div_mod::lemma_small_mod(0, P as nat);
    if c.len() == 1 {
        let (q, rem) = divide_linear(c, r);
        assert(q.len() == 0);
        assert(mul_linear(q, r)[0] == fsub(0, fmul(r, 0)));
        assert(r * 0 == 0);
        lemma_field_laws(c[0], 0, 0);
        lemma_field_laws(0, c[0], 0);
    } else {
        let c1 = c.drop_first();
        lemma_divide_linear(c1, r);
        let (q1, rem1) = divide_linear(c1, r);
        let (q, rem) = divide_linear(c, r);
        assert(q == seq![rem1] + q1);
        assert forall|k: int| 0 <= k < q.len() implies #[trigger] q[k] < P by {
            if k > 0 {
                assert(q[k] == q1[k - 1]);
            }
        }
        assert forall|k: int| 0 <= k < c.len() implies #[trigger] c[k] == fadd(
            mul_linear(q, r)[k],
            if k == 0 {
                rem
            } else {
                0
            },
        ) by {
            let ml = mul_linear(q, r);
            if k == 0 {
                // -r * rem1 + (c0 + r * rem1) = c0
                assert(ml[0] == fsub(0, fmul(r, rem1)));
                lemma_fsub_is_add_neg(0, fmul(r, rem1));
                lemma_field_laws(fmul(r, rem1), 0, 0);
                lemma_field_laws(0, fneg(fmul(r, rem1)), 0);
                lemma_field_laws(fneg(fmul(r, rem1)), c[0], fmul(r, rem1));
                lemma_field_laws(c[0], fmul(r, rem1), fneg(fmul(r, rem1)));
                lemma_field_laws(fmul(r, rem1), fneg(fmul(r, rem1)), 0);
                lemma_field_laws(c[0], 0, 0);
            } else {
                assert(c[k] == c1[k - 1]);
                let ml1 = mul_linear(q1, r);
                assert(coeff(q, k) == coeff(q1, k - 1));
                if k == 1 {
                    assert(coeff(q, 0) == rem1);
                    // c1[0] = fadd(ml1[0], rem1) = fadd(fsub(0, r q1_0), rem1) = fsub(rem1, r q1_0)
                    let y = fmul(r, coeff(q1, 0));
                    lemma_fsub_is_add_neg(0, y);
                    lemma_fsub_is_add_neg(rem1, y);
                    lemma_field_laws(0, fneg(y), 0);
                    lemma_field_laws(fneg(y), rem1, 0);
                    lemma_field_laws(fsub(rem1, y), 0, 0);
                    assert(ml[1] == fsub(rem1, y));
                } else {
                    assert(coeff(q, k - 1) == coeff(q1, k - 2));
                    assert(ml[k] == ml1[k - 1]);
                }
            }
        }
    }
}

/// Evaluating after adding `d` to the constant term adds `d`.
proof fn lemma_horner_plus_constant(a: Seq<nat>, d: nat, x: nat)
    requires
        a.len() >= 1,
        d < P,
        x < P,
    ensures
        horner(Seq::new(a.len(), |k: int| fadd(a[k], if k == 0 { d } else { 0 })), x) == fadd(
            horner(a, x),
            d,
        ),
{
    let n = a.len();
    let e = Seq::new(n, |k: int| if k == 0 { d } else { 0nat });
    assert(Seq::new(n, |k: int| fadd(a[k], if k == 0 { d } else { 0 })) =~= Seq::new(
        n,
        |k: int| fadd(a[k], e[k]),
    ));
    lemma_horner_add(a, e, x);
    assert(e.drop_first() =~= Seq::new((n - 1) as nat, |k: int| 0nat));
    lemma_horner_zeros((n - 1) as nat, x);
    vstd::arithmetic::div_mod::lemma_small_mod(0, P as nat);
    vstd::arithmetic::div_mod::lemma_small_mod(d, P as nat);
    assert(x * 0 == 0);
    assert(horner(e, x) == d);
}

/// A polynomial with at most as many coefficients as there are distinct points, that
/// vanishes at all of them, has only zero coefficients.
pub proof fn lemma_vanishing_polynomial_is_zero(c: Seq<nat>, xs: Seq<nat>)
    requires
        c.len() <= xs.len(),
        forall|k: int| 0 <= k < c.len() ==> #[trigger] c[k] < P,
        forall|k: int| 0 <= k < xs.len() ==> #[trigger] xs[k] < P,
        forall|a: int, b: int| 0 <= a < b < xs.len() ==> xs[a] != xs[b],
        forall|i: int| 0 <= i < xs.len() ==> #[trigger] horner(c, xs[i]) == 0,
    ensures
        forall|k: int| 0 <= k < c.len() ==> #[trigger] c[k] == 0,
    decreases c.len(),
{
    if c.len() > 0 {
        let r = xs[0];
        lemma_divide_linear(c, r);
        let (q, rem) = divide_linear(c, r);
        let ml = mul_linear(q, r);
        assert(c =~= Seq::new(c.len(), |k: int| fadd(ml[k], if k == 0 { rem } else { 0 })));
        assert forall|x: nat| x < P implies #[trigger] horner(c, x) == fadd(
            fmul(fsub(x, r), horner(q, x)),
            rem,
        ) by {
            lemma_horner_plus_constant(ml, rem, x);
            lemma_horner_mul_linear(q, r, x);
        }
        // At `r` the product vanishes, so the remainder is zero.
        assert(horner(c, r) == fadd(fmul(fsub(r, r), horner(q, r)), rem));
        vstd::arithmetic::div_mod::lemma_small_mod(0, P as nat);
        assert(fsub(r, r) == 0);
        lemma_horner_canonical(q, r);
        lemma_field_laws(horner(q, r), 0, 0);
        lemma_field_laws(0, horner(q, r), 0);
        lemma_field_laws(rem, 0, 0);
        lemma_field_laws(0, rem, 0);
        assert(rem == 0);
        // At the other points, the quotient vanishes.
        let xs1 = xs.drop_first();
        assert forall|i: int| 0 <= i < xs1.len() implies #[trigger] horner(q, xs1[i]) == 0 by {
            let x = xs1[i];
            assert(x == xs[i + 1]);
            assert(horner(c, x) == 0);
            let d = fsub(x, r);
            lemma_horner_canonical(q, x);
            let h = horner(q, x);
            lemma_field_laws(fmul(d, h), 0, 0);
            assert(fmul(d, h) == 0);
            assert(d != 0) by {
                let z = x as int - r as int;
                if z >= 0 {
                    vstd::arithmetic::div_mod::lemma_small_mod(z as nat, P as nat);
                } else {
                    vstd::arithmetic::div_mod::lemma_fundamental_div_mod_converse(z, P as int, -1, z + P as int);
                }
            }
            if h != 0 {
                lemma_no_zero_divisors(d, h);
            }
        }
        assert forall|a: int, b: int| 0 <= a < b < xs1.len() implies xs1[a] != xs1[b] by {
            assert(xs1[a] == xs[a + 1]);
            assert(xs1[b] == xs[b + 1]);
        }
        lemma_vanishing_polynomial_is_zero(q, xs1);
        assert forall|k: int| 0 <= k < c.len() implies #[trigger] c[k] == 0 by {
            assert(coeff(q, k - 1) == 0);
            assert(coeff(q, k) == 0);
            assert(r * 0 == 0);
            assert(ml[k] == 0);
        }
    }
}

/// The values of the polynomial with coefficients `a` at each of `xs`.
pub open spec fn values_at(a: Seq<nat>, xs: Seq<nat>) -> Seq<nat> {
    Seq::new(xs.len(), |i: int| horner(a, xs[i]))
}

/// Interpolating the values of a polynomial with `n` coefficients at `n` distinct
/// points gives back its coefficients.
pub proof fn lemma_interpolation_round_trip(a: Seq<nat>, xs: Seq<nat>)
    requires
        a.len() == xs.len(),
        forall|k: int| 0 <= k < a.len() ==> #[trigger] a[k] < P,
        forall|k: int| 0 <= k < xs.len() ==> #[trigger] xs[k] < P,
        forall|i: int, j: int| 0 <= i < j < xs.len() ==> xs[i] != xs[j],
    ensures
        forall|k: int|
            0 <= k < a.len() ==> #[trigger] lagrange_coeff(xs, values_at(a, xs), xs.len() as int, k)
                == a[k],
{
    let n = xs.len();
    let ys = values_at(a, xs);
    let l = Seq::new(n, |k: int| lagrange_coeff(xs, ys, n as int, k));
    let neg = Seq::new(n, |k: int| fmul((P - 1) as nat, a[k]));
    let d = Seq::new(n, |k: int| fadd(l[k], neg[k]));
    assert forall|k: int| 0 <= k < n implies #[trigger] xs[k] < P && ys[k] < P by {
        lemma_horner_canonical(a, xs[k]);
    }
    assert forall|k: int| 0 <= k < n implies #[trigger] d[k] < P by {}
    assert forall|i: int| 0 <= i < n implies #[trigger] horner(d, xs[i]) == 0 by {
        let x = xs[i];
        lemma_horner_add(l, neg, x);
        lemma_horner_scale(a, (P - 1) as nat, x);
        lemma_lagrange_interpolates(xs, ys, i);
        let y = horner(a, x);
        lemma_horner_canonical(a, x);
        // y + (p - 1) * y = p * y = 0
        vstd::arithmetic::div_mod::lemma_add_mod_noop(y as int, ((P - 1) * y) as int, P as int);
        vstd::arithmetic::div_mod::lemma_small_mod(y, P as nat);
        vstd::arithmetic::div_mod::lemma_mod_mod(((P - 1) * y) as int, P as int, 1);
        vstd::arithmetic::div_mod::lemma_mod_multiples_basic(y as int, P as int);
        vstd::arithmetic::mul::lemma_mul_is_distributive_add(y as int, 1, (P - 1) as int);
        vstd::arithmetic::mul::lemma_mul_is_commutative(y as int, P as int);
        vstd::arithmetic::mul::lemma_mul_is_commutative(y as int, (P - 1) as int);
    }
    lemma_vanishing_polynomial_is_zero(d, xs);
    assert forall|k: int| 0 <= k < a.len() implies #[trigger] lagrange_coeff(xs, ys, n as int, k)
        == a[k] by {
        assert(d[k] == 0);
        let lk = l[k];
        let ak = a[k];
        // lk + (p - 1) * ak = 0 modulo p, with both below p, forces lk == ak.
        vstd::arithmetic::div_mod::lemma_mod_bound(lk as int, P as int);
        vstd::arithmetic::div_mod::lemma_add_mod_noop(lk as int, ((P - 1) * ak) as int, P as int);
        vstd::arithmetic::div_mod::lemma_mod_mod(((P - 1) * ak) as int, P as int, 1);
        assert((lk as int + (P - 1) * ak) % (P as int) == 0);
        assert(lk as int + (P - 1) * ak == (lk as int - ak as int) + P * ak) by (nonlinear_arith);
        vstd::arithmetic::div_mod::lemma_mod_multiples_vanish(ak as int, lk as int - ak as int, P as int);
        let z = lk as int - ak as int;
        if z > 0 {
            vstd::arithmetic::div_mod::lemma_small_mod(z as nat, P as nat);
        } else if z < 0 {
            vstd::arithmetic::div_mod::lemma_fundamental_div_mod_converse(z, P as int, -1, z + P as int);
        }
    }
}

} // verus!
