use crate::b_field_element::{fadd, fmul, fpow, lemma_field_laws, BFieldElement, P};
use vstd::arithmetic::power::{lemma_pow_adds, pow};
use crate::polynomial::Polynomial;
use crate::rescue_prime::values;
use vstd::prelude::*;
use vstd::wrapping::u64_specs::wrapping_add;

verus! {

/// A term: an exponent for each variable, and a coefficient.
pub type Term = (Vec<u64>, BFieldElement);

/// The view of a term: its exponents and the canonical value of its coefficient.
pub type TermView = (Seq<u64>, nat);

pub open spec fn terms_view(ts: Seq<Term>) -> Seq<TermView> {
    ts.map_values(|t: Term| (t.0@, t.1@))
}

/// First index at or after `i` of a term with exponents `e`, or -1.
pub open spec fn find_exponents(ts: Seq<TermView>, e: Seq<u64>, i: int) -> int
    decreases ts.len() - i,
{
    if i < 0 || i >= ts.len() {
        -1
    } else if ts[i].0 == e {
        i
    } else {
        find_exponents(ts, e, i + 1)
    }
}

/// `t` merged into `ts`: added to the term with the same exponents, or appended.
pub open spec fn insert_term(ts: Seq<TermView>, t: TermView) -> Seq<TermView> {
    let k = find_exponents(ts, t.0, 0);
    if k >= 0 {
        ts.update(k, (t.0, fadd(ts[k].1, t.1)))
    } else {
        ts.push(t)
    }
}

/// Each of `ts`, in order, merged into `acc`.
pub open spec fn insert_all(acc: Seq<TermView>, ts: Seq<TermView>) -> Seq<TermView>
    decreases ts.len(),
{
    if ts.len() == 0 {
        acc
    } else {
        insert_all(insert_term(acc, ts[0]), ts.drop_first())
    }
}

/// The terms whose coefficient is not zero, in order.
pub open spec fn nonzero(ts: Seq<TermView>) -> Seq<TermView>
    decreases ts.len(),
{
    if ts.len() == 0 {
        ts
    } else if ts.last().1 != 0 {
        nonzero(ts.drop_last()).push(ts.last())
    } else {
        nonzero(ts.drop_last())
    }
}

/// Entry `i` of an exponent vector, zero past its end.
pub open spec fn exponent_at(e: Seq<u64>, i: int) -> u64 {
    if 0 <= i < e.len() {
        e[i]
    } else {
        0
    }
}

/// Exponents added entry by entry (in 64-bit words), over the length of `a`.
pub open spec fn add_exponents(a: Seq<u64>, b: Seq<u64>) -> Seq<u64> {
    Seq::new(a.len(), |i: int| wrapping_add(a[i], exponent_at(b, i)))
}

/// The products of the term `t` with each term of `b`.
pub open spec fn product_row(t: TermView, b: Seq<TermView>) -> Seq<TermView> {
    b.map_values(|s: TermView| (add_exponents(t.0, s.0), fmul(t.1, s.1)))
}

/// All products of a term of `a` with a term of `b`, `a` in the outer order.
pub open spec fn products(a: Seq<TermView>, b: Seq<TermView>) -> Seq<TermView>
    decreases a.len(),
{
    if a.len() == 0 {
        Seq::empty()
    } else {
        products(a.drop_last(), b) + product_row(a.last(), b)
    }
}

/// Sum of two polynomials: like terms merged, zero terms dropped.
pub open spec fn poly_add(a: Seq<TermView>, b: Seq<TermView>) -> Seq<TermView> {
    nonzero(insert_all(a, b))
}

/// Product of two polynomials.
pub open spec fn poly_mul(a: Seq<TermView>, b: Seq<TermView>) -> Seq<TermView> {
    nonzero(insert_all(Seq::empty(), products(a, b)))
}

/// Every coefficient multiplied by `c`.
pub open spec fn poly_scale(a: Seq<TermView>, c: nat) -> Seq<TermView> {
    a.map_values(|t: TermView| (t.0, fmul(t.1, c)))
}

/// `a` times itself `k` times, starting from `one`.
pub open spec fn poly_pow(a: Seq<TermView>, k: nat, one: Seq<TermView>) -> Seq<TermView>
    decreases k,
{
    if k == 0 {
        one
    } else {
        poly_mul(poly_pow(a, (k - 1) as nat, one), a)
    }
}

/// The all-zero exponent vector of `n` variables.
pub open spec fn zero_exponents(n: nat) -> Seq<u64> {
    Seq::new(n, |i: int| 0u64)
}

/// The exponent vector of `n` variables with `k` in slot `v`.
pub open spec fn unit_exponents(n: nat, v: int, k: u64) -> Seq<u64> {
    Seq::new(n, |i: int| if i == v { k } else { 0u64 })
}

/// Coordinate `i` of a point, zero past its end.
pub open spec fn coordinate(point: Seq<nat>, i: int) -> nat {
    if 0 <= i < point.len() {
        point[i]
    } else {
        0
    }
}

/// The product of `point[i]^e[i]`.
pub open spec fn monomial_value(e: Seq<u64>, point: Seq<nat>) -> nat
    decreases e.len(),
{
    if e.len() == 0 {
        1
    } else {
        fmul(
            monomial_value(e.drop_last(), point),
            fpow(coordinate(point, e.len() - 1), e.last() as nat),
        )
    }
}

/// The value of a polynomial at `point`.
pub open spec fn poly_value(ts: Seq<TermView>, point: Seq<nat>) -> nat
    decreases ts.len(),
{
    if ts.len() == 0 {
        0
    } else {
        fadd(poly_value(ts.drop_last(), point), fmul(ts.last().1, monomial_value(ts.last().0, point)))
    }
}

/// A polynomial in `variable_count` variables, as a list of terms with distinct
/// exponent vectors and non-zero coefficients.
#[derive(Debug, Clone)]
pub struct MPolynomial {
    pub variable_count: usize,
    pub terms: Vec<Term>,
}

fn exponents_eq(a: &Vec<u64>, b: &Vec<u64>) -> (r: bool)
    ensures
        r == (a@ == b@),
{
    if a.len() != b.len() {
        return false;
    }
    let mut i: usize = 0;
    while i < a.len()
        invariant
            a.len() == b.len(),
            0 <= i <= a.len(),
            forall|k: int| 0 <= k < i ==> a[k] == b[k],
        decreases a.len() - i,
    {
        if a[i] != b[i] {
            return false;
        }
        i = i + 1;
    }
    assert(a@ =~= b@);
    true
}

fn copy_exponents(a: &Vec<u64>) -> (r: Vec<u64>)
    ensures
        r@ == a@,
{
    let mut r: Vec<u64> = Vec::new();
    let mut i: usize = 0;
    while i < a.len()
        invariant
            0 <= i <= a.len(),
            r@ == a@.subrange(0, i as int),
        decreases a.len() - i,
    {
        r.push(a[i]);
        i = i + 1;
        assert(r@ =~= a@.subrange(0, i as int));
    }
    assert(a@.subrange(0, a.len() as int) =~= a@);
    r
}

fn copy_terms(ts: &Vec<Term>) -> (r: Vec<Term>)
    ensures
        terms_view(r@) == terms_view(ts@),
{
    let mut r: Vec<Term> = Vec::new();
    let mut i: usize = 0;
    while i < ts.len()
        invariant
            0 <= i <= ts.len(),
            terms_view(r@) == terms_view(ts@.subrange(0, i as int)),
        decreases ts.len() - i,
    {
        let ghost before = terms_view(r@);
        let e = copy_exponents(&ts[i].0);
        r.push((e, ts[i].1));
        assert(terms_view(r@) =~= before.push((ts@[i as int].0@, ts@[i as int].1@)));
        assert(terms_view(ts@.subrange(0, i + 1)) =~= terms_view(ts@.subrange(0, i as int)).push(
            (ts@[i as int].0@, ts@[i as int].1@),
        ));
        i = i + 1;
    }
    assert(ts@.subrange(0, ts.len() as int) =~= ts@);
    r
}

/// Merges `t` into `ts`.
fn insert_term_into(ts: &mut Vec<Term>, t: Term)
    ensures
        terms_view(final(ts)@) == insert_term(terms_view(old(ts)@), (t.0@, t.1@)),
{
    let ghost tv = terms_view(ts@);
    let mut k: usize = 0;
    while k < ts.len()
        invariant
            0 <= k <= ts.len(),
            tv == terms_view(ts@),
            tv == terms_view(old(ts)@),
            find_exponents(tv, t.0@, 0) == find_exponents(tv, t.0@, k as int),
        decreases ts.len() - k,
    {
        if exponents_eq(&ts[k].0, &t.0) {
            assert(tv[k as int].0 == t.0@);
            assert(find_exponents(tv, t.0@, 0) == k);
            let c = ts[k].1.add(t.1);
            let e = copy_exponents(&t.0);
            ts.set(k, (e, c));
            assert(terms_view(ts@) =~= tv.update(k as int, (t.0@, fadd(tv[k as int].1, t.1@))));
            assert(insert_term(tv, (t.0@, t.1@)) == tv.update(k as int, (t.0@, fadd(tv[k as int].1, t.1@))));
            return;
        }
        k = k + 1;
    }
    ts.push(t);
    assert(terms_view(ts@) =~= tv.push((t.0@, t.1@)));
}

/// Merges each of `more` into `ts`, in order.
fn insert_all_into(ts: &mut Vec<Term>, more: &Vec<Term>)
    ensures
        terms_view(final(ts)@) == insert_all(terms_view(old(ts)@), terms_view(more@)),
{
    let ghost mv = terms_view(more@);
    let mut i: usize = 0;
    assert(mv.subrange(0, mv.len() as int) =~= mv);
    while i < more.len()
        invariant
            0 <= i <= more.len(),
            mv == terms_view(more@),
            insert_all(terms_view(old(ts)@), mv) == insert_all(
                terms_view(ts@),
                mv.subrange(i as int, mv.len() as int),
            ),
        decreases more.len() - i,
    {
        assert(mv.subrange(i as int, mv.len() as int).drop_first() =~= mv.subrange(
            i + 1,
            mv.len() as int,
        ));
        insert_term_into(ts, (copy_exponents(&more[i].0), more[i].1));
        i = i + 1;
    }
    assert(mv.subrange(i as int, mv.len() as int) =~= Seq::<TermView>::empty());
}

/// The terms of `ts` with a non-zero coefficient.
fn drop_zero_terms(ts: Vec<Term>) -> (r: Vec<Term>)
    ensures
        terms_view(r@) == nonzero(terms_view(ts@)),
{
    let ghost tv = terms_view(ts@);
    let mut r: Vec<Term> = Vec::new();
    let mut i: usize = 0;
    assert(tv.subrange(0, 0) =~= Seq::<TermView>::empty());
    while i < ts.len()
        invariant
            0 <= i <= ts.len(),
            tv == terms_view(ts@),
            terms_view(r@) == nonzero(tv.subrange(0, i as int)),
        decreases ts.len() - i,
    {
        let ghost before = terms_view(r@);
        assert(tv.subrange(0, i + 1).drop_last() =~= tv.subrange(0, i as int));
        if !ts[i].1.is_zero() {
            r.push((copy_exponents(&ts[i].0), ts[i].1));
            assert(terms_view(r@) =~= before.push(tv[i as int]));
        }
        i = i + 1;
    }
    assert(tv.subrange(0, ts.len() as int) =~= tv);
    r
}

impl MPolynomial {
    /// The polynomial as its term view.
    pub open spec fn spec_terms(&self) -> Seq<TermView> {
        terms_view(self.terms@)
    }

    /// The constant `c` in `variable_count` variables (no term when `c` is zero).
    pub fn from_constant(element: BFieldElement, variable_count: usize) -> (r: Self)
        ensures
            r.variable_count == variable_count,
            r.spec_terms() == nonzero(seq![(zero_exponents(variable_count as nat), element@)]),
    {
        let mut exps: Vec<u64> = Vec::new();
        while exps.len() < variable_count
            invariant
                exps.len() <= variable_count,
                forall|k: int| 0 <= k < exps.len() ==> exps[k] == 0,
            decreases variable_count - exps.len(),
        {
            exps.push(0);
        }
        assert(exps@ =~= zero_exponents(variable_count as nat));
        let mut terms: Vec<Term> = Vec::new();
        terms.push((exps, element));
        assert(terms_view(terms@) =~= seq![(zero_exponents(variable_count as nat), element@)]);
        MPolynomial { variable_count, terms: drop_zero_terms(terms) }
    }

    /// The `variable_count` polynomials `X_0, ..., X_{n-1}`, each with the non-zero
    /// coefficient `one`.
    pub fn variables(variable_count: usize, one: BFieldElement) -> (r: Vec<Self>)
        requires
            one@ != 0,
        ensures
            r.len() == variable_count,
            forall|i: int|
                0 <= i < variable_count ==> (#[trigger] r[i]).variable_count == variable_count
                    && r[i].spec_terms() == seq![(unit_exponents(variable_count as nat, i, 1), one@)],
    {
        let mut r: Vec<Self> = Vec::new();
        let mut i: usize = 0;
        while i < variable_count
            invariant
                0 <= i <= variable_count,
                r.len() == i,
                forall|k: int|
                    0 <= k < i ==> (#[trigger] r[k]).variable_count == variable_count
                        && r[k].spec_terms() == seq![(unit_exponents(variable_count as nat, k, 1), one@)],
            decreases variable_count - i,
        {
            let mut exps: Vec<u64> = Vec::new();
            while exps.len() < variable_count
                invariant
                    exps.len() <= variable_count,
                    forall|k: int| 0 <= k < exps.len() ==> exps[k] == if k == i { 1u64 } else { 0u64 },
                decreases variable_count - exps.len(),
            {
                if exps.len() == i {
                    exps.push(1);
                } else {
                    exps.push(0);
                }
            }
            assert(exps@ =~= unit_exponents(variable_count as nat, i as int, 1));
            let mut terms: Vec<Term> = Vec::new();
            terms.push((exps, one));
            assert(terms_view(terms@) =~= seq![(unit_exponents(variable_count as nat, i as int, 1), one@)]);
            r.push(MPolynomial { variable_count, terms });
            i = i + 1;
        }
        r
    }

    pub fn add(&self, other: &Self) -> (r: Self)
        ensures
            r.variable_count == self.variable_count,
            r.spec_terms() == poly_add(self.spec_terms(), other.spec_terms()),
    {
        let mut terms = copy_terms(&self.terms);
        insert_all_into(&mut terms, &other.terms);
        MPolynomial { variable_count: self.variable_count, terms: drop_zero_terms(terms) }
    }

    pub fn scalar_mul(&self, factor: BFieldElement) -> (r: Self)
        ensures
            r.variable_count == self.variable_count,
            r.spec_terms() == poly_scale(self.spec_terms(), factor@),
    {
        let mut terms: Vec<Term> = Vec::new();
        let mut i: usize = 0;
        while i < self.terms.len()
            invariant
                0 <= i <= self.terms.len(),
                terms.len() == i,
                forall|k: int|
                    0 <= k < i ==> (#[trigger] terms[k]).0@ == self.terms[k].0@ && terms[k].1@ == fmul(
                        self.terms[k].1@,
                        factor@,
                    ),
            decreases self.terms.len() - i,
        {
            terms.push((copy_exponents(&self.terms[i].0), self.terms[i].1.mul(factor)));
            i = i + 1;
        }
        assert(terms_view(terms@) =~= poly_scale(self.spec_terms(), factor@));
        MPolynomial { variable_count: self.variable_count, terms }
    }

    pub fn sub(&self, other: &Self) -> (r: Self)
        ensures
            r.variable_count == self.variable_count,
            r.spec_terms() == poly_add(self.spec_terms(), poly_scale(other.spec_terms(), (P - 1) as nat)),
    {
        let minus_one = BFieldElement::ring_one().neg();
        self.add(&other.scalar_mul(minus_one))
    }
}

/// The products of `t` with each of `b`.
fn multiply_row(t: &Term, b: &Vec<Term>) -> (r: Vec<Term>)
    ensures
        terms_view(r@) == product_row((t.0@, t.1@), terms_view(b@)),
{
    let mut r: Vec<Term> = Vec::new();
    let mut j: usize = 0;
    while j < b.len()
        invariant
            0 <= j <= b.len(),
            r.len() == j,
            forall|k: int|
                0 <= k < j ==> (#[trigger] r[k]).0@ == add_exponents(t.0@, b[k].0@) && r[k].1@ == fmul(
                    t.1@,
                    b[k].1@,
                ),
        decreases b.len() - j,
    {
        let other = &b[j].0;
        let mut exps: Vec<u64> = Vec::new();
        let mut i: usize = 0;
        while i < t.0.len()
            invariant
                0 <= i <= t.0.len(),
                j < b.len(),
                other == &b[j as int].0,
                exps.len() == i,
                forall|q: int| 0 <= q < i ==> exps[q] == wrapping_add(t.0[q], exponent_at(other@, q)),
            decreases t.0.len() - i,
        {
            let o = if i < other.len() {
                other[i]
            } else {
                0
            };
            exps.push(t.0[i].wrapping_add(o));
            i = i + 1;
        }
        assert(exps@ =~= add_exponents(t.0@, other@));
        r.push((exps, t.1.mul(b[j].1)));
        j = j + 1;
    }
    assert(terms_view(r@) =~= product_row((t.0@, t.1@), terms_view(b@)));
    r
}

impl MPolynomial {
    pub fn mul(&self, other: &Self) -> (r: Self)
        ensures
            r.variable_count == self.variable_count,
            r.spec_terms() == poly_mul(self.spec_terms(), other.spec_terms()),
    {
        let ghost a = self.spec_terms();
        let ghost b = other.spec_terms();
        let mut terms: Vec<Term> = Vec::new();
        let mut i: usize = 0;
        assert(a.subrange(0, 0) =~= Seq::<TermView>::empty());
        while i < self.terms.len()
            invariant
                0 <= i <= self.terms.len(),
                a == self.spec_terms(),
                b == other.spec_terms(),
                terms_view(terms@) == insert_all(Seq::empty(), products(a.subrange(0, i as int), b)),
            decreases self.terms.len() - i,
        {
            let row = multiply_row(&self.terms[i], &other.terms);
            proof {
                assert(a.subrange(0, i + 1).drop_last() =~= a.subrange(0, i as int));
                assert(a.subrange(0, i + 1).last() == (self.terms[i as int].0@, self.terms[i as int].1@));
                lemma_insert_all_concat(
                    Seq::empty(),
                    products(a.subrange(0, i as int), b),
                    terms_view(row@),
                );
            }
            insert_all_into(&mut terms, &row);
            i = i + 1;
        }
        assert(a.subrange(0, self.terms.len() as int) =~= a);
        MPolynomial { variable_count: self.variable_count, terms: drop_zero_terms(terms) }
    }

    /// `self` raised to the power `exp`, by repeated multiplication; the constant one
    /// for `exp == 0`.
    pub fn mod_pow(&self, exp: u64, one: BFieldElement) -> (r: Self)
        ensures
            r.variable_count == self.variable_count,
            r.spec_terms() == poly_pow(
                self.spec_terms(),
                exp as nat,
                nonzero(seq![(zero_exponents(self.variable_count as nat), one@)]),
            ),
    {
        let mut acc = MPolynomial::from_constant(one, self.variable_count);
        let mut k: u64 = 0;
        while k < exp
            invariant
                0 <= k <= exp,
                acc.variable_count == self.variable_count,
                acc.spec_terms() == poly_pow(
                    self.spec_terms(),
                    k as nat,
                    nonzero(seq![(zero_exponents(self.variable_count as nat), one@)]),
                ),
            decreases exp - k,
        {
            acc = acc.mul(self);
            k = k + 1;
        }
        acc
    }

    /// The univariate `polynomial` as a polynomial in `variable_count` variables, in the
    /// variable `var_index`.
    pub fn lift(polynomial: &Polynomial, var_index: usize, variable_count: usize) -> (r: Self)
        ensures
            r.variable_count == variable_count,
            r.spec_terms() == nonzero(
                Seq::new(
                    polynomial.coefficients.len() as nat,
                    |k: int|
                        (
                            unit_exponents(variable_count as nat, var_index as int, k as u64),
                            polynomial.coefficients[k]@,
                        ),
                ),
            ),
    {
        let c = &polynomial.coefficients;
        let mut terms: Vec<Term> = Vec::new();
        let mut k: usize = 0;
        while k < c.len()
            invariant
                0 <= k <= c.len(),
                c == &polynomial.coefficients,
                terms.len() == k,
                forall|q: int|
                    0 <= q < k ==> (#[trigger] terms[q]).0@ == unit_exponents(
                        variable_count as nat,
                        var_index as int,
                        q as u64,
                    ) && terms[q].1 == c[q],
            decreases c.len() - k,
        {
            let mut exps: Vec<u64> = Vec::new();
            while exps.len() < variable_count
                invariant
                    exps.len() <= variable_count,
                    forall|q: int|
                        0 <= q < exps.len() ==> exps[q] == if q == var_index {
                            k as u64
                        } else {
                            0u64
                        },
                decreases variable_count - exps.len(),
            {
                if exps.len() == var_index {
                    exps.push(k as u64);
                } else {
                    exps.push(0);
                }
            }
            assert(exps@ =~= unit_exponents(variable_count as nat, var_index as int, k as u64));
            terms.push((exps, c[k]));
            k = k + 1;
        }
        assert(terms_view(terms@) =~= Seq::new(
            polynomial.coefficients.len() as nat,
            |k: int|
                (
                    unit_exponents(variable_count as nat, var_index as int, k as u64),
                    polynomial.coefficients[k]@,
                ),
        ));
        MPolynomial { variable_count, terms: drop_zero_terms(terms) }
    }

    /// The value at `point`; coordinates past the end of `point` count as zero.
    pub fn evaluate(&self, point: &Vec<BFieldElement>) -> (r: BFieldElement)
        ensures
            r@ == poly_value(self.spec_terms(), values(point@)),
    {
        let ghost pv = values(point@);
        let ghost tv = self.spec_terms();
        let mut acc = BFieldElement::ring_zero();
        let mut i: usize = 0;
        assert(tv.subrange(0, 0) =~= Seq::<TermView>::empty());
        while i < self.terms.len()
            invariant
                0 <= i <= self.terms.len(),
                tv == self.spec_terms(),
                pv == values(point@),
                acc@ == poly_value(tv.subrange(0, i as int), pv),
            decreases self.terms.len() - i,
        {
            let e = &self.terms[i].0;
            let mut m = BFieldElement::ring_one();
            let mut j: usize = 0;
            assert(e@.subrange(0, 0) =~= Seq::<u64>::empty());
            while j < e.len()
                invariant
                    0 <= j <= e.len(),
                    i < self.terms.len(),
                    e == &self.terms[i as int].0,
                    pv == values(point@),
                    m@ == monomial_value(e@.subrange(0, j as int), pv),
                decreases e.len() - j,
            {
                let x = if j < point.len() {
                    point[j]
                } else {
                    BFieldElement::ring_zero()
                };
                assert(x@ == coordinate(pv, j as int));
                assert(e@.subrange(0, j + 1).drop_last() =~= e@.subrange(0, j as int));
                m = m.mul(x.mod_pow(e[j]));
                j = j + 1;
            }
            assert(e@.subrange(0, e.len() as int) =~= e@);
            assert(tv.subrange(0, i + 1).drop_last() =~= tv.subrange(0, i as int));
            acc = acc.add(self.terms[i].1.mul(m));
            i = i + 1;
        }
        assert(tv.subrange(0, self.terms.len() as int) =~= tv);
        acc
    }
}

/// Merging `x` and then `y` is merging `x + y`.
proof fn lemma_insert_all_concat(acc: Seq<TermView>, x: Seq<TermView>, y: Seq<TermView>)
    ensures
        insert_all(acc, x + y) == insert_all(insert_all(acc, x), y),
    decreases x.len(),
{
    if x.len() == 0 {
        assert(x + y =~= y);
    } else {
        assert((x + y).drop_first() =~= x.drop_first() + y);
        lemma_insert_all_concat(insert_term(acc, x[0]), x.drop_first(), y);
    }
}

/// Every coefficient is a canonical representative.
pub open spec fn canonical_terms(ts: Seq<TermView>) -> bool {
    forall|i: int| 0 <= i < ts.len() ==> #[trigger] ts[i].1 < P
}

/// The value of one term at `point`.
pub open spec fn term_value(t: TermView, point: Seq<nat>) -> nat {
    fmul(t.1, monomial_value(t.0, point))
}

proof fn lemma_value_canonical(ts: Seq<TermView>, point: Seq<nat>)
    ensures
        poly_value(ts, point) < P,
    decreases ts.len(),
{
}

proof fn lemma_monomial_canonical(e: Seq<u64>, point: Seq<nat>)
    ensures
        monomial_value(e, point) < P,
    decreases e.len(),
{
}

/// Changing the coefficient of term `k` to `c + d` adds `d` times its monomial.
proof fn lemma_value_update(ts: Seq<TermView>, k: int, d: nat, point: Seq<nat>)
    requires
        0 <= k < ts.len(),
        d < P,
        canonical_terms(ts),
    ensures
        poly_value(ts.update(k, (ts[k].0, fadd(ts[k].1, d))), point) == fadd(
            poly_value(ts, point),
            fmul(d, monomial_value(ts[k].0, point)),
        ),
    decreases ts.len(),
{
    let n = ts.len() as int;
    let u = ts.update(k, (ts[k].0, fadd(ts[k].1, d)));
    let m = monomial_value(ts[k].0, point);
    lemma_monomial_canonical(ts[k].0, point);
    lemma_value_canonical(ts.drop_last(), point);
    if k == n - 1 {
        assert(u.drop_last() =~= ts.drop_last());
        let v = poly_value(ts.drop_last(), point);
        let c = ts[k].1;
        // v + (c + d) m = (v + c m) + d m
        lemma_field_laws(m, c, d);
        lemma_field_laws(c, m, 0);
        lemma_field_laws(fadd(c, d), m, 0);
        lemma_field_laws(d, m, 0);
        lemma_field_laws(v, fmul(c, m), fmul(d, m));
    } else {
        assert(u.drop_last() =~= ts.drop_last().update(k, (ts[k].0, fadd(ts[k].1, d))));
        lemma_value_update(ts.drop_last(), k, d, point);
        let v = poly_value(ts.drop_last(), point);
        let last = term_value(ts.last(), point);
        let dm = fmul(d, m);
        lemma_monomial_canonical(ts.last().0, point);
        lemma_field_laws(v, dm, last);
        lemma_field_laws(v, last, dm);
        lemma_field_laws(dm, last, 0);
    }
}

/// Merging a term adds its value.
pub proof fn lemma_value_insert_term(ts: Seq<TermView>, t: TermView, point: Seq<nat>)
    requires
        canonical_terms(ts),
        t.1 < P,
    ensures
        poly_value(insert_term(ts, t), point) == fadd(poly_value(ts, point), term_value(t, point)),
        canonical_terms(insert_term(ts, t)),
{
    let k = find_exponents(ts, t.0, 0);
    lemma_find_exponents(ts, t.0, 0);
    if k >= 0 {
        lemma_value_update(ts, k, t.1, point);
    } else {
        assert(ts.push(t).drop_last() =~= ts);
    }
}

proof fn lemma_find_exponents(ts: Seq<TermView>, e: Seq<u64>, i: int)
    requires
        0 <= i,
    ensures
        find_exponents(ts, e, i) >= 0 ==> i <= find_exponents(ts, e, i) < ts.len() && ts[find_exponents(
            ts,
            e,
            i,
        )].0 == e,
        find_exponents(ts, e, i) < 0 ==> find_exponents(ts, e, i) == -1,
    decreases ts.len() - i,
{
    if i < ts.len() && ts[i].0 != e {
        lemma_find_exponents(ts, e, i + 1);
    }
}

/// The value of a term list is its first term plus the value of the rest.
proof fn lemma_value_front(ts: Seq<TermView>, point: Seq<nat>)
    requires
        ts.len() > 0,
    ensures
        poly_value(ts, point) == fadd(term_value(ts[0], point), poly_value(ts.drop_first(), point)),
    decreases ts.len(),
{
    if ts.len() == 1 {
        assert(ts.drop_first() =~= Seq::<TermView>::empty());
        assert(ts.drop_last() =~= Seq::<TermView>::empty());
        lemma_monomial_canonical(ts[0].0, point);
        lemma_field_laws(term_value(ts[0], point), 0, 0);
        lemma_field_laws(0, term_value(ts[0], point), 0);
    } else {
        lemma_value_front(ts.drop_last(), point);
        assert(ts.drop_last().drop_first() =~= ts.drop_first().drop_last());
        assert(ts.drop_last()[0] == ts[0]);
        assert(ts.drop_first().last() == ts.last());
        let a = term_value(ts[0], point);
        let b = poly_value(ts.drop_last().drop_first(), point);
        let c = term_value(ts.last(), point);
        lemma_value_canonical(ts.drop_last().drop_first(), point);
        lemma_monomial_canonical(ts[0].0, point);
        lemma_monomial_canonical(ts.last().0, point);
        lemma_field_laws(a, b, c);
    }
}

/// Merging a list of terms adds its value.
pub proof fn lemma_value_insert_all(acc: Seq<TermView>, ts: Seq<TermView>, point: Seq<nat>)
    requires
        canonical_terms(acc),
        canonical_terms(ts),
    ensures
        poly_value(insert_all(acc, ts), point) == fadd(poly_value(acc, point), poly_value(ts, point)),
        canonical_terms(insert_all(acc, ts)),
    decreases ts.len(),
{
    lemma_value_canonical(acc, point);
    if ts.len() == 0 {
        lemma_field_laws(poly_value(acc, point), 0, 0);
    } else {
        lemma_value_insert_term(acc, ts[0], point);
        let acc1 = insert_term(acc, ts[0]);
        assert(canonical_terms(ts.drop_first())) by {
            assert forall|i: int| 0 <= i < ts.drop_first().len() implies #[trigger] ts.drop_first()[i].1 < P by {
                assert(ts.drop_first()[i] == ts[i + 1]);
            }
        }
        lemma_value_insert_all(acc1, ts.drop_first(), point);
        lemma_value_front(ts, point);
        lemma_monomial_canonical(ts[0].0, point);
        lemma_value_canonical(ts.drop_first(), point);
        lemma_field_laws(poly_value(acc, point), term_value(ts[0], point), poly_value(ts.drop_first(), point));
    }
}

/// Dropping zero terms keeps the value.
pub proof fn lemma_value_nonzero(ts: Seq<TermView>, point: Seq<nat>)
    ensures
        poly_value(nonzero(ts), point) == poly_value(ts, point),
        canonical_terms(ts) ==> canonical_terms(nonzero(ts)),
    decreases ts.len(),
{
    if ts.len() > 0 {
        lemma_value_nonzero(ts.drop_last(), point);
        assert(canonical_terms(ts) ==> canonical_terms(ts.drop_last())) by {
            if canonical_terms(ts) {
                assert forall|i: int| 0 <= i < ts.drop_last().len() implies #[trigger] ts.drop_last()[i].1 < P by {
                    assert(ts.drop_last()[i] == ts[i]);
                }
            }
        }
        lemma_value_canonical(ts.drop_last(), point);
        lemma_monomial_canonical(ts.last().0, point);
        if ts.last().1 != 0 {
            let z = nonzero(ts.drop_last());
            assert(z.push(ts.last()).drop_last() =~= z);
            if canonical_terms(ts) {
                assert forall|i: int| 0 <= i < z.push(ts.last()).len() implies #[trigger] z.push(ts.last())[i].1 < P by {
                    if i < z.len() {
                        assert(z.push(ts.last())[i] == z[i]);
                    }
                }
            }
        } else {
            vstd::arithmetic::div_mod::lemma_small_mod(0, P as nat);
            assert(0 * monomial_value(ts.last().0, point) == 0);
            assert(fmul(0, monomial_value(ts.last().0, point)) == 0);
            lemma_field_laws(poly_value(ts.drop_last(), point), 0, 0);
        }
    }
}

/// The value of a sum is the sum of the values.
pub proof fn lemma_value_poly_add(a: Seq<TermView>, b: Seq<TermView>, point: Seq<nat>)
    requires
        canonical_terms(a),
        canonical_terms(b),
    ensures
        poly_value(poly_add(a, b), point) == fadd(poly_value(a, point), poly_value(b, point)),
        canonical_terms(poly_add(a, b)),
{
    lemma_value_insert_all(a, b, point);
    lemma_value_nonzero(insert_all(a, b), point);
}

/// Scaling every coefficient by `c` scales the value by `c`.
pub proof fn lemma_value_poly_scale(a: Seq<TermView>, c: nat, point: Seq<nat>)
    requires
        c < P,
        canonical_terms(a),
    ensures
        poly_value(poly_scale(a, c), point) == fmul(poly_value(a, point), c),
    decreases a.len(),
{
    let sa = poly_scale(a, c);
    if a.len() == 0 {
        vstd::arithmetic::div_mod::lemma_small_mod(0, P as nat);
        assert(0 * c == 0);
    } else {
        assert(sa.drop_last() =~= poly_scale(a.drop_last(), c));
        assert(canonical_terms(a.drop_last())) by {
            assert forall|i: int| 0 <= i < a.drop_last().len() implies #[trigger] a.drop_last()[i].1 < P by {
                assert(a.drop_last()[i] == a[i]);
            }
        }
        lemma_value_poly_scale(a.drop_last(), c, point);
        let v = poly_value(a.drop_last(), point);
        let t = a.last();
        let m = monomial_value(t.0, point);
        lemma_value_canonical(a.drop_last(), point);
        lemma_monomial_canonical(t.0, point);
        lemma_field_laws(t.1, c, m);
        lemma_field_laws(c, m, 0);
        lemma_field_laws(t.1, m, c);
        lemma_field_laws(c, v, fmul(t.1, m));
        lemma_field_laws(v, c, 0);
        lemma_field_laws(fadd(v, fmul(t.1, m)), c, 0);
    }
}

/// The exponent vectors of two terms have one length and add without overflow.
pub open spec fn exponents_add(e1: Seq<u64>, e2: Seq<u64>) -> bool {
    e1.len() == e2.len() && forall|i: int| 0 <= i < e1.len() ==> e1[i] + e2[i] <= u64::MAX
}

proof fn lemma_fpow_add(x: nat, a: nat, b: nat)
    ensures
        fpow(x, a + b) == fmul(fpow(x, a), fpow(x, b)),
{
    lemma_pow_adds(x as int, a, b);
    crate::b_field_element::lemma_fpow_nonneg(x, a);
    crate::b_field_element::lemma_fpow_nonneg(x, b);
    vstd::arithmetic::div_mod::lemma_mul_mod_noop(pow(x as int, a), pow(x as int, b), P as int);
}

/// The monomial of a sum of exponents is the product of the monomials.
proof fn lemma_monomial_add(e1: Seq<u64>, e2: Seq<u64>, point: Seq<nat>)
    requires
        exponents_add(e1, e2),
    ensures
        monomial_value(add_exponents(e1, e2), point) == fmul(
            monomial_value(e1, point),
            monomial_value(e2, point),
        ),
    decreases e1.len(),
{
    let s = add_exponents(e1, e2);
    if e1.len() == 0 {
        vstd::arithmetic::div_mod::lemma_small_mod(1, P as nat);
        assert(s.len() == 0);
        assert(e2.len() == 0);
        assert(monomial_value(s, point) == 1);
        assert(monomial_value(e1, point) == 1);
        assert(monomial_value(e2, point) == 1);
        assert(fmul(1, 1) == 1);
    } else {
        let n = e1.len() - 1;
        assert(s.drop_last() =~= add_exponents(e1.drop_last(), e2.drop_last()));
        lemma_monomial_add(e1.drop_last(), e2.drop_last(), point);
        assert(s.last() == e1.last() + e2.last());
        let x = coordinate(point, n);
        lemma_fpow_add(x, e1.last() as nat, e2.last() as nat);
        let a = monomial_value(e1.drop_last(), point);
        let b = monomial_value(e2.drop_last(), point);
        let fa = fpow(x, e1.last() as nat);
        let fb = fpow(x, e2.last() as nat);
        lemma_monomial_canonical(e1.drop_last(), point);
        lemma_monomial_canonical(e2.drop_last(), point);
        assert(fa < P && fb < P);
        assert(monomial_value(e1, point) == fmul(a, fa));
        assert(monomial_value(e2, point) == fmul(b, fb));
        assert(monomial_value(s, point) == fmul(fmul(a, b), fpow(x, s.last() as nat)));
        assert(fpow(x, s.last() as nat) == fmul(fa, fb));
        // (a b)(fa fb) = (a fa)(b fb)
        vstd::arithmetic::div_mod::lemma_mod_bound((fa * fb) as int, P as int);
        vstd::arithmetic::div_mod::lemma_mod_bound((b * fb) as int, P as int);
        vstd::arithmetic::div_mod::lemma_mod_bound((b * fa) as int, P as int);
        lemma_field_laws(a, b, fmul(fa, fb));
        assert(fmul(fmul(a, b), fmul(fa, fb)) == fmul(a, fmul(b, fmul(fa, fb))));
        lemma_field_laws(b, fa, fb);
        assert(fmul(b, fmul(fa, fb)) == fmul(fmul(b, fa), fb));
        lemma_field_laws(b, fa, 0);
        assert(fmul(b, fa) == fmul(fa, b));
        lemma_field_laws(fa, b, fb);
        assert(fmul(fmul(fa, b), fb) == fmul(fa, fmul(b, fb)));
        lemma_field_laws(a, fa, fmul(b, fb));
        assert(fmul(a, fmul(fa, fmul(b, fb))) == fmul(fmul(a, fa), fmul(b, fb)));
    }
}

/// The value of a list of terms followed by another is the sum of their values.
proof fn lemma_value_concat(x: Seq<TermView>, y: Seq<TermView>, point: Seq<nat>)
    ensures
        poly_value(x + y, point) == fadd(poly_value(x, point), poly_value(y, point)),
    decreases y.len(),
{
    lemma_value_canonical(x, point);
    if y.len() == 0 {
        assert(x + y =~= x);
        lemma_field_laws(poly_value(x, point), 0, 0);
    } else {
        assert((x + y).drop_last() =~= x + y.drop_last());
        assert((x + y).last() == y.last());
        lemma_value_concat(x, y.drop_last(), point);
        lemma_value_canonical(y.drop_last(), point);
        lemma_monomial_canonical(y.last().0, point);
        lemma_field_laws(poly_value(x, point), poly_value(y.drop_last(), point), term_value(y.last(), point));
    }
}

/// The exponents of every term of `a` add to those of every term of `b`.
pub open spec fn exponents_fit(a: Seq<TermView>, b: Seq<TermView>) -> bool {
    forall|i: int, j: int| 0 <= i < a.len() && 0 <= j < b.len() ==> exponents_add(#[trigger] a[i].0, #[trigger] b[j].0)
}

proof fn lemma_value_product_row(t: TermView, b: Seq<TermView>, point: Seq<nat>)
    requires
        t.1 < P,
        canonical_terms(b),
        forall|j: int| 0 <= j < b.len() ==> exponents_add(t.0, #[trigger] b[j].0),
    ensures
        poly_value(product_row(t, b), point) == fmul(term_value(t, point), poly_value(b, point)),
    decreases b.len(),
{
    let r = product_row(t, b);
    let tv = term_value(t, point);
    lemma_monomial_canonical(t.0, point);
    if b.len() == 0 {
        vstd::arithmetic::div_mod::lemma_small_mod(0, P as nat);
        assert(tv * 0 == 0);
    } else {
        assert(r.drop_last() =~= product_row(t, b.drop_last()));
        assert(canonical_terms(b.drop_last())) by {
            assert forall|i: int| 0 <= i < b.drop_last().len() implies #[trigger] b.drop_last()[i].1 < P by {
                assert(b.drop_last()[i] == b[i]);
            }
        }
        lemma_value_product_row(t, b.drop_last(), point);
        let s = b.last();
        assert(exponents_add(t.0, s.0));
        lemma_monomial_add(t.0, s.0, point);
        let mt = monomial_value(t.0, point);
        let ms = monomial_value(s.0, point);
        lemma_monomial_canonical(s.0, point);
        let v = poly_value(b.drop_last(), point);
        lemma_value_canonical(b.drop_last(), point);
        // (t.1 s.1)(mt ms) = (t.1 mt)(s.1 ms)
        lemma_field_laws(t.1, s.1, fmul(mt, ms));
        lemma_field_laws(s.1, mt, ms);
        lemma_field_laws(mt, s.1, ms);
        lemma_field_laws(s.1, mt, 0);
        lemma_field_laws(t.1, mt, fmul(s.1, ms));
        lemma_field_laws(tv, v, fmul(s.1, ms));
    }
}

proof fn lemma_value_products(a: Seq<TermView>, b: Seq<TermView>, point: Seq<nat>)
    requires
        canonical_terms(a),
        canonical_terms(b),
        exponents_fit(a, b),
    ensures
        poly_value(products(a, b), point) == fmul(poly_value(a, point), poly_value(b, point)),
        canonical_terms(products(a, b)),
    decreases a.len(),
{
    let vb = poly_value(b, point);
    lemma_value_canonical(b, point);
    if a.len() == 0 {
        vstd::arithmetic::div_mod::lemma_small_mod(0, P as nat);
        assert(0 * vb == 0);
    } else {
        let a1 = a.drop_last();
        assert(canonical_terms(a1)) by {
            assert forall|i: int| 0 <= i < a1.len() implies #[trigger] a1[i].1 < P by {
                assert(a1[i] == a[i]);
            }
        }
        assert(exponents_fit(a1, b)) by {
            assert forall|i: int, j: int| 0 <= i < a1.len() && 0 <= j < b.len() implies exponents_add(#[trigger] a1[i].0, #[trigger] b[j].0) by {
                assert(a1[i] == a[i]);
            }
        }
        lemma_value_products(a1, b, point);
        let t = a.last();
        assert forall|j: int| 0 <= j < b.len() implies exponents_add(t.0, #[trigger] b[j].0) by {
            assert(t == a[a.len() - 1]);
        }
        lemma_value_product_row(t, b, point);
        lemma_value_concat(products(a1, b), product_row(t, b), point);
        let v1 = poly_value(a1, point);
        lemma_value_canonical(a1, point);
        lemma_monomial_canonical(t.0, point);
        let tv = term_value(t, point);
        lemma_field_laws(vb, v1, tv);
        lemma_field_laws(v1, vb, 0);
        lemma_field_laws(tv, vb, 0);
        lemma_field_laws(fadd(v1, tv), vb, 0);
        let pr = products(a, b);
        assert forall|i: int| 0 <= i < pr.len() implies #[trigger] pr[i].1 < P by {
            let left = products(a1, b);
            if i >= left.len() {
                assert(pr[i] == product_row(t, b)[i - left.len()]);
            } else {
                assert(pr[i] == left[i]);
            }
        }
    }
}

/// The value of a product is the product of the values, where the exponent vectors
/// of the two factors have one length and add without overflow.
pub proof fn lemma_value_poly_mul(a: Seq<TermView>, b: Seq<TermView>, point: Seq<nat>)
    requires
        canonical_terms(a),
        canonical_terms(b),
        exponents_fit(a, b),
    ensures
        poly_value(poly_mul(a, b), point) == fmul(poly_value(a, point), poly_value(b, point)),
        canonical_terms(poly_mul(a, b)),
{
    lemma_value_products(a, b, point);
    lemma_value_insert_all(Seq::empty(), products(a, b), point);
    lemma_value_nonzero(insert_all(Seq::empty(), products(a, b)), point);
    lemma_value_canonical(products(a, b), point);
    lemma_field_laws(poly_value(products(a, b), point), 0, 0);
    lemma_field_laws(0, poly_value(products(a, b), point), 0);
}

/// The value of `a` multiplied `k` times onto `one` (whose value is one) is the `k`-th
/// power of the value of `a`, where at each step the exponent vectors fit.
pub proof fn lemma_value_poly_pow(a: Seq<TermView>, k: nat, one: Seq<TermView>, point: Seq<nat>)
    requires
        canonical_terms(a),
        canonical_terms(one),
        poly_value(one, point) == 1,
        forall|j: nat| j < k ==> exponents_fit(#[trigger] poly_pow(a, j, one), a),
    ensures
        poly_value(poly_pow(a, k, one), point) == fpow(poly_value(a, point), k),
        canonical_terms(poly_pow(a, k, one)),
    decreases k,
{
    let v = poly_value(a, point);
    if k == 0 {
        vstd::arithmetic::power::lemma_pow0(v as int);
        vstd::arithmetic::div_mod::lemma_small_mod(1, P as nat);
    } else {
        lemma_value_poly_pow(a, (k - 1) as nat, one, point);
        assert(exponents_fit(poly_pow(a, (k - 1) as nat, one), a));
        lemma_value_poly_mul(poly_pow(a, (k - 1) as nat, one), a, point);
        crate::b_field_element::lemma_fpow_succ(v, (k - 1) as nat);
    }
}

} // verus!
