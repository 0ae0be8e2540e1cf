use crate::b_field_element::{fadd, fmul, fpow, lemma_fpow_succ, BFieldElement, P};
use crate::mpolynomial::{
    nonzero, poly_add, poly_pow, poly_scale, unit_exponents, zero_exponents, MPolynomial, TermView,
};
use crate::polynomial::{lagrange_coeff, Polynomial};
use vstd::prelude::*;

verus! {

/// The canonical representatives of a sequence of field elements.
pub open spec fn values(s: Seq<BFieldElement>) -> Seq<nat> {
    s.map_values(|e: BFieldElement| e@)
}

/// The canonical values of a matrix, row by row.
pub open spec fn matrix_values(m: Seq<Vec<BFieldElement>>) -> Seq<Seq<nat>> {
    m.map_values(|row: Vec<BFieldElement>| values(row@))
}

/// `sum_{j < k} row[j] * s[j]`, accumulated from `j = 0` up.
pub open spec fn dot(row: Seq<BFieldElement>, s: Seq<nat>, k: int) -> nat
    decreases k,
{
    if k <= 0 {
        0
    } else {
        fadd(dot(row, s, k - 1), fmul(row[k - 1]@, s[k - 1]))
    }
}

/// The matrix `mat` applied to the vector `s`.
pub open spec fn mat_vec(mat: Seq<Vec<BFieldElement>>, s: Seq<nat>) -> Seq<nat> {
    Seq::new(mat.len(), |i: int| dot(mat[i]@, s, s.len() as int))
}

/// Every entry raised to the power `e`.
pub open spec fn sbox(s: Seq<nat>, e: nat) -> Seq<nat> {
    s.map_values(|x: nat| fpow(x, e))
}

/// `s[i] + c[offset + i]` for each entry.
pub open spec fn add_constants(s: Seq<nat>, c: Seq<BFieldElement>, offset: int) -> Seq<nat> {
    Seq::new(s.len(), |i: int| fadd(s[i], c[offset + i]@))
}

/// A Rescue-Prime permutation over a state of `m` field elements.
#[derive(Debug, Clone)]
pub struct RescuePrime {
    pub m: usize,
    pub steps_count: usize,
    pub alpha: u64,
    pub alpha_inv: u64,
    pub mds: Vec<Vec<BFieldElement>>,
    pub mds_inv: Vec<Vec<BFieldElement>>,
    pub round_constants: Vec<BFieldElement>,
}

impl RescuePrime {
    /// The shapes agree (`m x m` matrices and two vectors of `m` round constants for
    /// each of the `steps_count` rounds), and the S-box exponents are inverse modulo
    /// `p - 1`.
    pub open spec fn wf(&self) -> bool {
        &&& self.m >= 1
        &&& self.mds.len() == self.m
        &&& self.mds_inv.len() == self.m
        &&& forall|i: int| 0 <= i < self.m ==> (#[trigger] self.mds[i]).len() == self.m
        &&& forall|i: int| 0 <= i < self.m ==> (#[trigger] self.mds_inv[i]).len() == self.m
        &&& 2 * self.steps_count * self.m <= self.round_constants.len()
        &&& self.round_constants.len() < usize::MAX
        &&& 2 * self.m + 1 < usize::MAX
        &&& (self.alpha * self.alpha_inv) % ((P - 1) as int) == 1
    }

    /// The `x` values of the round-constant interpolation: `omicron^j`, `j < steps_count`.
    pub open spec fn domain(&self, omicron: nat) -> Seq<nat> {
        Seq::new(self.steps_count as nat, |j: int| fpow(omicron, j as nat))
    }

    /// The constants that register `i` receives in half `h` (0 or 1) of each round.
    pub open spec fn register_constants(&self, i: int, h: int) -> Seq<nat> {
        Seq::new(
            self.steps_count as nat,
            |j: int| self.round_constants[2 * j * self.m + h * self.m + i]@,
        )
    }

    /// The interpolant of those constants over the domain, as a polynomial in the first
    /// of the `1 + 2m` AIR variables.
    pub open spec fn round_constant_polynomial(&self, omicron: nat, i: int, h: int) -> Seq<TermView> {
        let n = self.steps_count as int;
        nonzero(
            Seq::new(
                n as nat,
                |k: int|
                    (
                        unit_exponents((1 + 2 * self.m) as nat, 0, k as u64),
                        lagrange_coeff(self.domain(omicron), self.register_constants(i, h), n, k),
                    ),
            ),
        )
    }

    /// The domain holds no value twice.
    pub open spec fn domain_is_distinct(&self, omicron: nat) -> bool {
        forall|a: int, b: int|
            0 <= a < b < self.steps_count ==> self.domain(omicron)[a] != self.domain(omicron)[b]
    }

    /// One round `r` applied to the state `s`.
    pub open spec fn round(&self, s: Seq<nat>, r: int) -> Seq<nat> {
        let half = add_constants(
            mat_vec(self.mds@, sbox(s, self.alpha as nat)),
            self.round_constants@,
            2 * r * self.m,
        );
        add_constants(
            mat_vec(self.mds@, sbox(half, self.alpha_inv as nat)),
            self.round_constants@,
            2 * r * self.m + self.m,
        )
    }

    /// The state after the first `n` rounds, starting from `(x, 0, ..., 0)`.
    pub open spec fn state_after(&self, x: nat, n: nat) -> Seq<nat>
        decreases n,
    {
        if n == 0 {
            Seq::new(self.m as nat, |i: int| if i == 0 { x } else { 0 })
        } else {
            self.round(self.state_after(x, (n - 1) as nat), n - 1)
        }
    }

    fn sbox_layer(&self, state: &Vec<BFieldElement>, e: u64) -> (r: Vec<BFieldElement>)
        ensures
            r.len() == state.len(),
            values(r@) == sbox(values(state@), e as nat),
    {
        let mut r: Vec<BFieldElement> = Vec::new();
        let mut i: usize = 0;
        while i < state.len()
            invariant
                0 <= i <= state.len(),
                r.len() == i,
                forall|k: int| 0 <= k < i ==> r[k]@ == fpow(state[k]@, e as nat),
            decreases state.len() - i,
        {
            r.push(state[i].mod_pow(e));
            i = i + 1;
        }
        assert(values(r@) =~= sbox(values(state@), e as nat));
        r
    }

    fn mds_layer(&self, state: &Vec<BFieldElement>) -> (r: Vec<BFieldElement>)
        requires
            self.wf(),
            state.len() == self.m,
        ensures
            r.len() == self.m,
            values(r@) == mat_vec(self.mds@, values(state@)),
    {
        let mut r: Vec<BFieldElement> = Vec::new();
        let mut i: usize = 0;
        while i < self.m
            invariant
                self.wf(),
                state.len() == self.m,
                0 <= i <= self.m,
                r.len() == i,
                forall|k: int| 0 <= k < i ==> r[k]@ == dot(self.mds[k]@, values(state@), self.m as int),
            decreases self.m - i,
        {
            let row = &self.mds[i];
            let mut acc = BFieldElement::ring_zero();
            let mut j: usize = 0;
            while j < self.m
                invariant
                    self.wf(),
                    0 <= i < self.m,
                    state.len() == self.m,
                    row == self.mds[i as int],
                    0 <= j <= self.m,
                    acc@ == dot(row@, values(state@), j as int),
                decreases self.m - j,
            {
                acc = acc.add(row[j].mul(state[j]));
                j = j + 1;
            }
            r.push(acc);
            i = i + 1;
        }
        assert(values(r@) =~= mat_vec(self.mds@, values(state@)));
        r
    }

    fn constants_layer(&self, state: &Vec<BFieldElement>, offset: usize) -> (r: Vec<BFieldElement>)
        requires
            offset + state.len() <= self.round_constants.len(),
        ensures
            r.len() == state.len(),
            values(r@) == add_constants(values(state@), self.round_constants@, offset as int),
    {
        let mut r: Vec<BFieldElement> = Vec::new();
        let mut i: usize = 0;
        while i < state.len()
            invariant
                offset + state.len() <= self.round_constants.len(),
                0 <= i <= state.len(),
                r.len() == i,
                forall|k: int|
                    0 <= k < i ==> r[k]@ == fadd(state[k]@, self.round_constants[offset + k]@),
            decreases state.len() - i,
        {
            r.push(state[i].add(self.round_constants[offset + i]));
            i = i + 1;
        }
        assert(values(r@) =~= add_constants(values(state@), self.round_constants@, offset as int));
        r
    }

    fn hash_round(&self, input_state: Vec<BFieldElement>, round_number: usize) -> (r: Vec<
        BFieldElement,
    >)
        requires
            self.wf(),
            input_state.len() == self.m,
            2 * self.m * (round_number + 1) <= self.round_constants.len(),
        ensures
            r.len() == self.m,
            values(r@) == self.round(values(input_state@), round_number as int),
    {
        proof {
            assert(2 * round_number * self.m + 2 * self.m == 2 * self.m * (round_number + 1))
                by (nonlinear_arith);
            assert(2 * round_number <= 2 * round_number * self.m) by (nonlinear_arith)
                requires
                    self.m >= 1,
            ;
        }
        let forward = self.sbox_layer(&input_state, self.alpha);
        let mixed = self.mds_layer(&forward);
        let half = self.constants_layer(&mixed, 2 * round_number * self.m);
        let backward = self.sbox_layer(&half, self.alpha_inv);
        let mixed2 = self.mds_layer(&backward);
        self.constants_layer(&mixed2, 2 * round_number * self.m + self.m)
    }

    /// The Rescue-Prime hash of `input`: the first entry of the state after
    /// `steps_count` rounds from `(input, 0, ..., 0)`.
    pub fn hash(&self, input: &BFieldElement) -> (r: BFieldElement)
        requires
            self.wf(),
        ensures
            r@ == self.state_after(input@, self.steps_count as nat)[0],
    {
        let mut state = self.initial_state(input);
        let mut i: usize = 0;
        while i < self.steps_count
            invariant
                self.wf(),
                0 <= i <= self.steps_count,
                state.len() == self.m,
                values(state@) == self.state_after(input@, i as nat),
            decreases self.steps_count - i,
        {
            proof {
                assert(2 * self.m * (i + 1) <= 2 * self.steps_count * self.m) by (nonlinear_arith)
                    requires
                        i < self.steps_count,
                ;
            }
            state = self.hash_round(state, i);
            i = i + 1;
        }
        state[0]
    }

    fn initial_state(&self, input: &BFieldElement) -> (r: Vec<BFieldElement>)
        requires
            self.wf(),
        ensures
            r.len() == self.m,
            values(r@) == self.state_after(input@, 0),
    {
        let mut state: Vec<BFieldElement> = Vec::new();
        state.push(*input);
        while state.len() < self.m
            invariant
                1 <= state.len() <= self.m,
                state[0] == *input,
                forall|k: int| 1 <= k < state.len() ==> state[k]@ == 0,
            decreases self.m - state.len(),
        {
            state.push(BFieldElement::ring_zero());
        }
        assert(values(state@) =~= self.state_after(input@, 0));
        state
    }

    /// All `steps_count + 1` states that hashing `input` passes through, the initial
    /// state first.
    pub fn trace(&self, input: &BFieldElement) -> (r: Vec<Vec<BFieldElement>>)
        requires
            self.wf(),
        ensures
            r.len() == self.steps_count + 1,
            forall|i: int|
                0 <= i <= self.steps_count ==> (#[trigger] r[i]).len() == self.m && values(r[i]@)
                    == self.state_after(input@, i as nat),
    {
        let mut trace: Vec<Vec<BFieldElement>> = Vec::new();
        let mut state = self.initial_state(input);
        trace.push(state.clone());
        let mut i: usize = 0;
        while i < self.steps_count
            invariant
                self.wf(),
                0 <= i <= self.steps_count,
                state.len() == self.m,
                values(state@) == self.state_after(input@, i as nat),
                trace.len() == i + 1,
                forall|k: int|
                    0 <= k <= i ==> (#[trigger] trace[k]).len() == self.m && values(trace[k]@)
                        == self.state_after(input@, k as nat),
            decreases self.steps_count - i,
        {
            proof {
                assert(2 * self.m * (i + 1) <= 2 * self.steps_count * self.m) by (nonlinear_arith)
                    requires
                        i < self.steps_count,
                ;
            }
            let next_state = self.hash_round(state, i);
            trace.push(next_state.clone());
            state = next_state;
            i = i + 1;
        }
        trace
    }

    /// The hash of `input` together with its trace.
    pub fn eval_and_trace(&self, input: &BFieldElement) -> (r: (BFieldElement, Vec<Vec<BFieldElement>>))
        requires
            self.wf(),
        ensures
            r.0@ == self.state_after(input@, self.steps_count as nat)[0],
            r.1.len() == self.steps_count + 1,
            forall|i: int|
                0 <= i <= self.steps_count ==> (#[trigger] r.1[i]).len() == self.m && values(r.1[i]@)
                    == self.state_after(input@, i as nat),
    {
        let trace = self.trace(input);
        let output = trace[trace.len() - 1][0];
        (output, trace)
    }

    /// The boundary constraints of a hash claim: the capacity register is zero at the
    /// start, and the output register holds `output_element` after the last round.
    pub fn get_boundary_constraints(&self, output_element: BFieldElement) -> (r: Vec<
        BoundaryConstraint,
    >)
        ensures
            r@ == seq![
                BoundaryConstraint { cycle: 0, register: 1, value: BFieldElement::spec_zero() },
                BoundaryConstraint { cycle: self.steps_count, register: 0, value: output_element },
            ],
    {
        let r = vec![
            BoundaryConstraint { cycle: 0, register: 1, value: BFieldElement::ring_zero() },
            BoundaryConstraint { cycle: self.steps_count, register: 0, value: output_element },
        ];
        proof {
            BFieldElement::lemma_view(r[0].value, BFieldElement::spec_zero());
        }
        assert(r@ =~= seq![
            BoundaryConstraint { cycle: 0, register: 1, value: BFieldElement::spec_zero() },
            BoundaryConstraint { cycle: self.steps_count, register: 0, value: output_element },
        ]);
        r
    }
}

/// The AIR polynomial `X_v` of `1 + 2m` variables.
pub open spec fn air_variable(nv: nat, v: int) -> Seq<TermView> {
    seq![(unit_exponents(nv, v, 1), 1nat)]
}

/// The constant one polynomial of `nv` variables.
pub open spec fn air_one(nv: nat) -> Seq<TermView> {
    nonzero(seq![(zero_exponents(nv), 1nat)])
}

/// The constant zero polynomial of `nv` variables.
pub open spec fn air_zero(nv: nat) -> Seq<TermView> {
    nonzero(seq![(zero_exponents(nv), 0nat)])
}

impl RescuePrime {
    /// `sum_{k < upto} mds[i][k] * prev_k^alpha`.
    pub open spec fn air_forward(&self, i: int, upto: int) -> Seq<TermView>
        decreases upto,
    {
        let nv = (1 + 2 * self.m) as nat;
        if upto <= 0 {
            air_zero(nv)
        } else {
            poly_add(
                self.air_forward(i, upto - 1),
                poly_scale(
                    poly_pow(air_variable(nv, upto), self.alpha as nat, air_one(nv)),
                    self.mds[i][upto - 1]@,
                ),
            )
        }
    }

    /// `sum_{k < upto} mds_inv[i][k] * (next_k - C_second_k(X))`.
    pub open spec fn air_backward(&self, omicron: nat, i: int, upto: int) -> Seq<TermView>
        decreases upto,
    {
        let nv = (1 + 2 * self.m) as nat;
        if upto <= 0 {
            air_zero(nv)
        } else {
            let k = upto - 1;
            poly_add(
                self.air_backward(omicron, i, upto - 1),
                poly_scale(
                    poly_add(
                        air_variable(nv, 1 + self.m + k),
                        poly_scale(self.round_constant_polynomial(omicron, k, 1), (P - 1) as nat),
                    ),
                    self.mds_inv[i][k]@,
                ),
            )
        }
    }

    /// The transition constraint of register `i`:
    /// `sum_k mds[i][k] prev_k^alpha + C_first_i(X) - (sum_k mds_inv[i][k] (next_k - C_second_k(X)))^alpha`.
    pub open spec fn air_constraint(&self, omicron: nat, i: int) -> Seq<TermView> {
        let nv = (1 + 2 * self.m) as nat;
        let lhs = poly_add(self.air_forward(i, self.m as int), self.round_constant_polynomial(omicron, i, 0));
        let rhs = poly_pow(self.air_backward(omicron, i, self.m as int), self.alpha as nat, air_one(nv));
        poly_add(lhs, poly_scale(rhs, (P - 1) as nat))
    }

    fn round_constant_points(&self, omicron: BFieldElement, i: usize, h: usize) -> (r: Vec<
        (BFieldElement, BFieldElement),
    >)
        requires
            self.wf(),
            i < self.m,
            h <= 1,
        ensures
            r.len() == self.steps_count,
            forall|j: int|
                0 <= j < self.steps_count ==> (#[trigger] r[j]).0@ == self.domain(omicron@)[j] && r[j].1@
                    == self.register_constants(i as int, h as int)[j],
    {
        let mut points: Vec<(BFieldElement, BFieldElement)> = Vec::new();
        let mut x = BFieldElement::ring_one();
        let mut j: usize = 0;
        proof {
            vstd::arithmetic::power::lemma_pow0(omicron@ as int);
        }
        while j < self.steps_count
            invariant
                self.wf(),
                i < self.m,
                h <= 1,
                0 <= j <= self.steps_count,
                points.len() == j,
                x@ == fpow(omicron@, j as nat),
                forall|q: int|
                    0 <= q < j ==> (#[trigger] points[q]).0@ == self.domain(omicron@)[q] && points[q].1@
                        == self.register_constants(i as int, h as int)[q],
            decreases self.steps_count - j,
        {
            proof {
                assert(2 * j * self.m + h * self.m + i < 2 * self.steps_count * self.m) by (nonlinear_arith)
                    requires
                        j < self.steps_count,
                        h <= 1,
                        i < self.m,
                ;
                assert(2 * j <= 2 * j * self.m) by (nonlinear_arith)
                    requires
                        self.m >= 1,
                ;
                assert(h * self.m <= self.m) by (nonlinear_arith)
                    requires
                        h <= 1,
                ;
                lemma_fpow_succ(omicron@, j as nat);
            }
            let c = self.round_constants[2 * j * self.m + h * self.m + i];
            points.push((x, c));
            x = x.mul(omicron);
            j = j + 1;
        }
        points
    }

    fn distinct_xs(points: &Vec<(BFieldElement, BFieldElement)>) -> (r: bool)
        ensures
            r == (forall|a: int, b: int| 0 <= a < b < points.len() ==> points[a].0 != points[b].0),
    {
        let mut a: usize = 0;
        while a < points.len()
            invariant
                0 <= a <= points.len(),
                forall|p: int, q: int| 0 <= p < a && p < q < points.len() ==> points[p].0 != points[q].0,
            decreases points.len() - a,
        {
            let mut b: usize = a + 1;
            while b < points.len()
                invariant
                    0 <= a < points.len(),
                    a < b <= points.len(),
                    forall|p: int, q: int| 0 <= p < a && p < q < points.len() ==> points[p].0 != points[q].0,
                    forall|q: int| a < q < b ==> points[a as int].0 != points[q].0,
                decreases points.len() - b,
            {
                if points[a].0 == points[b].0 {
                    return false;
                }
                b = b + 1;
            }
            a = a + 1;
        }
        true
    }

    /// For each register, the Lagrange interpolants over the points `omicron^j`,
    /// `j < steps_count`, of the constants it receives in the first and in the second
    /// half of round `j`, as polynomials in the first of `1 + 2m` variables (zero where
    /// there is no round). Empty where the powers of `omicron` repeat before `steps_count`.
    pub fn get_round_constant_polynomials(&self, omicron: BFieldElement) -> (r: (
        Vec<MPolynomial>,
        Vec<MPolynomial>,
    ))
        requires
            self.wf(),
        ensures
            self.domain_is_distinct(omicron@) ==> r.0.len() == self.m
                && r.1.len() == self.m,
            self.domain_is_distinct(omicron@) ==> forall|i: int|
                0 <= i < self.m ==> (#[trigger] r.0[i]).spec_terms() == self.round_constant_polynomial(
                    omicron@,
                    i,
                    0,
                ) && r.0[i].variable_count == 1 + 2 * self.m,
            self.domain_is_distinct(omicron@) ==> forall|i: int|
                0 <= i < self.m ==> (#[trigger] r.1[i]).spec_terms() == self.round_constant_polynomial(
                    omicron@,
                    i,
                    1,
                ) && r.1[i].variable_count == 1 + 2 * self.m,
            !self.domain_is_distinct(omicron@) ==> r.0.len() == 0 && r.1.len() == 0,
    {
        let nv = 1 + 2 * self.m;
        let mut first: Vec<MPolynomial> = Vec::new();
        let mut second: Vec<MPolynomial> = Vec::new();
        if self.steps_count == 0 {
            // With no round there is no point to interpolate: every interpolant is zero.
            while first.len() < self.m
                invariant
                    self.steps_count == 0,
                    nv == 1 + 2 * self.m,
                    first.len() == second.len(),
                    first.len() <= self.m,
                    forall|q: int|
                        0 <= q < first.len() ==> (#[trigger] first[q]).spec_terms()
                            == self.round_constant_polynomial(omicron@, q, 0) && first[q].variable_count == nv,
                    forall|q: int|
                        0 <= q < second.len() ==> (#[trigger] second[q]).spec_terms()
                            == self.round_constant_polynomial(omicron@, q, 1) && second[q].variable_count == nv,
                decreases self.m - first.len(),
            {
                let ghost k = first.len() as int;
                let zero_first = MPolynomial { variable_count: nv, terms: Vec::new() };
                let zero_second = MPolynomial { variable_count: nv, terms: Vec::new() };
                assert(zero_first.spec_terms() =~= self.round_constant_polynomial(omicron@, k, 0));
                assert(zero_second.spec_terms() =~= self.round_constant_polynomial(omicron@, k, 1));
                first.push(zero_first);
                second.push(zero_second);
            }
            return (first, second);
        }
        proof {
            assert(self.steps_count <= 2 * self.steps_count * self.m) by (nonlinear_arith)
                requires
                    self.m >= 1,
            ;
        }
        let probe = self.round_constant_points(omicron, 0, 0);
        if !Self::distinct_xs(&probe) {
            assert(!self.domain_is_distinct(omicron@)) by {
                assert(!(forall|a: int, b: int| 0 <= a < b < probe.len() ==> probe[a].0 != probe[b].0));
                let (a, b) = choose|a: int, b: int| 0 <= a < b < probe.len() && probe[a].0 == probe[b].0;
                BFieldElement::lemma_view(probe[a].0, probe[b].0);
            }
            return (first, second);
        }
        assert(self.domain_is_distinct(omicron@)) by {
            assert forall|a: int, b: int| 0 <= a < b < self.steps_count implies self.domain(omicron@)[a]
                != self.domain(omicron@)[b] by {
                BFieldElement::lemma_view(probe[a].0, probe[b].0);
            }
        }
        let mut i: usize = 0;
        while i < self.m
            invariant
                self.wf(),
                1 <= self.steps_count < usize::MAX,
                self.domain_is_distinct(omicron@),
                nv == 1 + 2 * self.m,
                0 <= i <= self.m,
                first.len() == i,
                second.len() == i,
                forall|q: int|
                    0 <= q < i ==> (#[trigger] first[q]).spec_terms() == self.round_constant_polynomial(
                        omicron@,
                        q,
                        0,
                    ) && first[q].variable_count == nv,
                forall|q: int|
                    0 <= q < i ==> (#[trigger] second[q]).spec_terms() == self.round_constant_polynomial(
                        omicron@,
                        q,
                        1,
                    ) && second[q].variable_count == nv,
            decreases self.m - i,
        {
            let first_points = self.round_constant_points(omicron, i, 0);
            let second_points = self.round_constant_points(omicron, i, 1);
            proof {
                assert forall|a: int, b: int| 0 <= a < b < first_points.len() implies first_points[a].0 != first_points[b].0 by {
                    BFieldElement::lemma_view(first_points[a].0, first_points[b].0);
                }
                assert forall|a: int, b: int| 0 <= a < b < second_points.len() implies second_points[a].0 != second_points[b].0 by {
                    BFieldElement::lemma_view(second_points[a].0, second_points[b].0);
                }
                assert(crate::polynomial::xs_of(first_points@) =~= self.domain(omicron@));
                assert(crate::polynomial::ys_of(first_points@) =~= self.register_constants(i as int, 0));
                assert(crate::polynomial::xs_of(second_points@) =~= self.domain(omicron@));
                assert(crate::polynomial::ys_of(second_points@) =~= self.register_constants(i as int, 1));
            }
            let c0 = Polynomial::slow_lagrange_interpolation(&first_points);
            let c1 = Polynomial::slow_lagrange_interpolation(&second_points);
            let m0 = MPolynomial::lift(&c0, 0, nv);
            let m1 = MPolynomial::lift(&c1, 0, nv);
            assert(m0.spec_terms() =~= self.round_constant_polynomial(omicron@, i as int, 0)) by {
                assert(Seq::new(
                    c0.coefficients.len() as nat,
                    |k: int| (unit_exponents(nv as nat, 0, k as u64), c0.coefficients[k]@),
                ) =~= Seq::new(
                    self.steps_count as nat,
                    |k: int|
                        (
                            unit_exponents((1 + 2 * self.m) as nat, 0, k as u64),
                            lagrange_coeff(
                                self.domain(omicron@),
                                self.register_constants(i as int, 0),
                                self.steps_count as int,
                                k,
                            ),
                        ),
                ));
            }
            assert(m1.spec_terms() =~= self.round_constant_polynomial(omicron@, i as int, 1)) by {
                assert(Seq::new(
                    c1.coefficients.len() as nat,
                    |k: int| (unit_exponents(nv as nat, 0, k as u64), c1.coefficients[k]@),
                ) =~= Seq::new(
                    self.steps_count as nat,
                    |k: int|
                        (
                            unit_exponents((1 + 2 * self.m) as nat, 0, k as u64),
                            lagrange_coeff(
                                self.domain(omicron@),
                                self.register_constants(i as int, 1),
                                self.steps_count as int,
                                k,
                            ),
                        ),
                ));
            }
            first.push(m0);
            second.push(m1);
            i = i + 1;
        }
        (first, second)
    }
}

impl RescuePrime {
    /// The transition constraints, one for each register, as polynomials in
    /// `(X, prev_0, ..., prev_{m-1}, next_0, ..., next_{m-1})`:
    /// `sum_k mds[i][k] prev_k^alpha + C_first_i(X) - (sum_k mds_inv[i][k] (next_k - C_second_k(X)))^alpha`.
    /// Empty where the round-constant polynomials are (see there).
    pub fn get_air_constraints(&self, omicron: BFieldElement) -> (r: Vec<MPolynomial>)
        requires
            self.wf(),
        ensures
            self.domain_is_distinct(omicron@) ==> r.len() == self.m,
            self.domain_is_distinct(omicron@) ==> forall|i: int|
                0 <= i < self.m ==> (#[trigger] r[i]).spec_terms() == self.air_constraint(omicron@, i),
            !self.domain_is_distinct(omicron@) ==> r.len() == 0,
    {
        let (first_step_constants, second_step_constants) = self.get_round_constant_polynomials(omicron);
        let mut air: Vec<MPolynomial> = Vec::new();
        if first_step_constants.len() != self.m || self.m == 0 {
            return air;
        }
        let ghost om = omicron@;
        let nv = 1 + 2 * self.m;
        let one = BFieldElement::ring_one();
        let zero = BFieldElement::ring_zero();
        let variables = MPolynomial::variables(nv, one);
        let mut i: usize = 0;
        while i < self.m
            invariant
                self.wf(),
                self.domain_is_distinct(om),
                om == omicron@,
                nv == 1 + 2 * self.m,
                one@ == 1,
                zero@ == 0,
                variables.len() == nv,
                forall|v: int|
                    0 <= v < nv ==> (#[trigger] variables[v]).variable_count == nv
                        && variables[v].spec_terms() == seq![(unit_exponents(nv as nat, v, 1), 1nat)],
                first_step_constants.len() == self.m,
                second_step_constants.len() == self.m,
                forall|q: int|
                    0 <= q < self.m ==> (#[trigger] first_step_constants[q]).spec_terms()
                        == self.round_constant_polynomial(om, q, 0),
                forall|q: int|
                    0 <= q < self.m ==> (#[trigger] second_step_constants[q]).spec_terms()
                        == self.round_constant_polynomial(om, q, 1),
                0 <= i <= self.m,
                air.len() == i,
                forall|q: int| 0 <= q < i ==> (#[trigger] air[q]).spec_terms() == self.air_constraint(om, q),
            decreases self.m - i,
        {
            let mut lhs = MPolynomial::from_constant(zero, nv);
            let mut k: usize = 0;
            while k < self.m
                invariant
                    self.wf(),
                    0 <= i < self.m,
                    nv == 1 + 2 * self.m,
                    one@ == 1,
                    variables.len() == nv,
                    forall|v: int|
                        0 <= v < nv ==> (#[trigger] variables[v]).variable_count == nv
                            && variables[v].spec_terms() == seq![(unit_exponents(nv as nat, v, 1), 1nat)],
                    0 <= k <= self.m,
                    lhs.spec_terms() == self.air_forward(i as int, k as int),
                    lhs.variable_count == nv,
                    om == omicron@,
                    zero@ == 0,
                    first_step_constants.len() == self.m,
                    second_step_constants.len() == self.m,
                    forall|q: int|
                        0 <= q < self.m ==> (#[trigger] first_step_constants[q]).spec_terms()
                            == self.round_constant_polynomial(om, q, 0),
                    forall|q: int|
                        0 <= q < self.m ==> (#[trigger] second_step_constants[q]).spec_terms()
                            == self.round_constant_polynomial(om, q, 1),
                decreases self.m - k,
            {
                let term = variables[1 + k].mod_pow(self.alpha, one).scalar_mul(self.mds[i][k]);
                lhs = lhs.add(&term);
                k = k + 1;
            }
            lhs = lhs.add(&first_step_constants[i]);
            let mut rhs = MPolynomial::from_constant(zero, nv);
            let mut k: usize = 0;
            while k < self.m
                invariant
                    self.wf(),
                    0 <= i < self.m,
                    om == omicron@,
                    nv == 1 + 2 * self.m,
                    variables.len() == nv,
                    forall|v: int|
                        0 <= v < nv ==> (#[trigger] variables[v]).variable_count == nv
                            && variables[v].spec_terms() == seq![(unit_exponents(nv as nat, v, 1), 1nat)],
                    second_step_constants.len() == self.m,
                    forall|q: int|
                        0 <= q < self.m ==> (#[trigger] second_step_constants[q]).spec_terms()
                            == self.round_constant_polynomial(om, q, 1),
                    0 <= k <= self.m,
                    rhs.spec_terms() == self.air_backward(om, i as int, k as int),
                    rhs.variable_count == nv,
                    lhs.variable_count == nv,
                    one@ == 1,
                    lhs.spec_terms() == poly_add(
                        self.air_forward(i as int, self.m as int),
                        self.round_constant_polynomial(om, i as int, 0),
                    ),
                decreases self.m - k,
            {
                let shifted = variables[1 + self.m + k].sub(&second_step_constants[k]);
                rhs = rhs.add(&shifted.scalar_mul(self.mds_inv[i][k]));
                k = k + 1;
            }
            rhs = rhs.mod_pow(self.alpha, one);
            let constraint = lhs.sub(&rhs);
            assert(constraint.spec_terms() == self.air_constraint(om, i as int));
            air.push(constraint);
            i = i + 1;
        }
        air
    }
}

/// Asserts that the trace holds `value` in column `register` of row `cycle`.
#[derive(Debug, Clone, Copy, PartialEq, Eq, Structural)]
pub struct BoundaryConstraint {
    pub cycle: usize,
    pub register: usize,
    pub value: BFieldElement,
}

} // verus!
