use twenty_first::b_field_element::BFieldElement;
use twenty_first::rescue_prime::{BoundaryConstraint, RescuePrime};
use twenty_first::rescue_prime_params::rescue_prime_params_bfield_0;

fn e(v: u128) -> BFieldElement {
    BFieldElement::new(v)
}

/// A small parameter set: width 2, three rounds, S-box exponent 7, and constants for
/// one round more than are run.
fn small_params() -> RescuePrime {
    let round_constants: Vec<BFieldElement> = (0..16u128).map(|i| e(i * i * 7919 + 13)).collect();
    RescuePrime {
        m: 2,
        steps_count: 3,
        alpha: 7,
        alpha_inv: 10540996611094048183,
        mds: vec![vec![e(2), e(3)], vec![e(1), e(4)]],
        mds_inv: vec![
            vec![e(3689348813882916865), e(11068046441648750592)],
            vec![e(3689348813882916864), e(11068046441648750593)],
        ],
        round_constants,
    }
}

#[test]
fn hash_test() {
    let rp = rescue_prime_params_bfield_0();

    let one = BFieldElement::new(1);
    let expected_sequence: Vec<BFieldElement> = vec![
        16408223883448864076,
        14851226605068667585,
        2638999062907144857,
        11729682885064735215,
        18241842748565968364,
        12761136320817622587,
        6569784252060404379,
        7456670293305349839,
        12092401435052133560,
    ]
    .iter()
    .map(|elem| BFieldElement::new(*elem))
    .collect();

    let mut actual = rp.hash(&one);
    for expected in expected_sequence {
        assert_eq!(expected, actual);
        actual = rp.hash(&expected);
    }
}

#[test]
fn reference_trace_ends_in_the_hash() {
    let rp = rescue_prime_params_bfield_0();
    let (output, trace) = rp.eval_and_trace(&BFieldElement::new(1));
    assert_eq!(8, trace.len());
    assert_eq!(BFieldElement::new(16408223883448864076), output);
    assert_eq!(output, trace[7][0]);
    assert!(trace[0][1].is_zero());
    let bc = rp.get_boundary_constraints(output);
    for c in bc {
        assert_eq!(c.value, trace[c.cycle][c.register]);
    }
}

#[test]
fn small_params_hash_and_trace() {
    let rp = small_params();
    let trace = rp.trace(&e(1));
    let expected = vec![
        vec![e(1), e(0)],
        vec![e(10712686925504583740), e(2321373686700139816)],
        vec![e(1193382847099090733), e(8289550864799745518)],
        vec![e(9239367396728369491), e(16934418475109166527)],
    ];
    assert_eq!(expected, trace);
    assert_eq!(e(9239367396728369491), rp.hash(&e(1)));
    let (output, trace2) = rp.eval_and_trace(&e(1));
    assert_eq!(e(9239367396728369491), output);
    assert_eq!(trace, trace2);
}

#[test]
fn hash_chain_differs_per_input() {
    let rp = small_params();
    let h1 = rp.hash(&e(1));
    let h2 = rp.hash(&h1);
    assert_ne!(h1, h2);
    assert_eq!(rp.hash(&h1), h2);
}

#[test]
fn boundary_constraints_of_a_claim() {
    let rp = small_params();
    let output = rp.hash(&e(42));
    let bc = rp.get_boundary_constraints(output);
    assert_eq!(
        vec![
            BoundaryConstraint { cycle: 0, register: 1, value: e(0) },
            BoundaryConstraint { cycle: 3, register: 0, value: output },
        ],
        bc
    );
    let trace = rp.trace(&e(42));
    for c in bc {
        assert_eq!(c.value, trace[c.cycle][c.register]);
    }
}

#[test]
fn air_is_zero_on_execution_trace_test() {
    let rp = rescue_prime_params_bfield_0();

    let omicron_res = BFieldElement::get_primitive_root_of_unity(1 << 5);
    let omicron = omicron_res.0.unwrap();

    // Verify that the round constants polynomials are correct
    let (fst_rc_pol, snd_rc_pol) = rp.get_round_constant_polynomials(omicron);
    assert_eq!(rp.m, fst_rc_pol.len());
    assert_eq!(rp.m, snd_rc_pol.len());
    for step in 0..rp.steps_count {
        let point = vec![omicron.mod_pow(step as u64)];
        for register in 0..rp.m {
            let fst_eval = fst_rc_pol[register].evaluate(&point);
            assert_eq!(rp.round_constants[2 * step * rp.m + register], fst_eval);
        }
        for register in 0..rp.m {
            let snd_eval = snd_rc_pol[register].evaluate(&point);
            assert_eq!(rp.round_constants[2 * step * rp.m + rp.m + register], snd_eval);
        }
    }

    // There are 256 round constants, which is enough for 8 rounds (steps_count).
    // But we only run with 7 rounds (steps_count), so we add 1 to count right.
    let actual_round_constants = rp.round_constants.len();
    let expected_round_constants = (rp.steps_count + 1) * 2 * rp.m;
    assert_eq!(expected_round_constants, actual_round_constants);

    // The reference trace starts from (42, 0, ..., 0) and ends in the hash.
    let input_2 = BFieldElement::new(42);
    let trace = rp.trace(&input_2);
    assert_eq!(rp.steps_count + 1, trace.len());
    assert_eq!(input_2, trace[0][0]);
    assert!(trace[0][1..].iter().all(|x| x.is_zero()));
    assert_eq!(rp.hash(&input_2), trace[rp.steps_count][0]);

    // The constraint polynomials of the reference instance, of width 16, have millions of
    // terms; they are expanded and evaluated along the trace for an instance of width 2
    // with the same structure (S-box exponent 7, constants for one round more than run).
    let small = small_params();
    let trace = small.trace(&input_2);
    let air_constraints = small.get_air_constraints(omicron);
    assert_eq!(small.m, air_constraints.len());
    for step in 0..small.steps_count {
        for air_constraint in air_constraints.iter() {
            let mut point = vec![];
            point.push(omicron.mod_pow(step as u64));
            for i in 0..small.m {
                point.push(trace[step][i]);
            }
            for i in 0..small.m {
                point.push(trace[step + 1][i]);
            }
            let eval = air_constraint.evaluate(&point);
            assert!(eval.is_zero());
        }
    }

    // A changed trace value is caught.
    let mut point = vec![omicron.mod_pow(0)];
    point.push(trace[0][0].add(BFieldElement::ring_one()));
    point.push(trace[0][1]);
    point.push(trace[1][0]);
    point.push(trace[1][1]);
    assert!(air_constraints.iter().any(|c| !c.evaluate(&point).is_zero()));
}

#[test]
fn reference_mds_inv_inverts_mds() {
    let rp = rescue_prime_params_bfield_0();
    for i in 0..rp.m {
        for j in 0..rp.m {
            let mut acc = BFieldElement::ring_zero();
            for k in 0..rp.m {
                acc = acc.add(rp.mds_inv[i][k].mul(rp.mds[k][j]));
            }
            let expected = if i == j { BFieldElement::ring_one() } else { BFieldElement::ring_zero() };
            assert_eq!(expected, acc);
        }
    }
    let x = BFieldElement::new(123456789);
    assert_eq!(x, x.mod_pow(rp.alpha).mod_pow(rp.alpha_inv));
}

#[test]
fn air_is_empty_without_a_distinct_domain() {
    let rp = small_params();
    // -1 has order 2, so its powers repeat within three rounds.
    let minus_one = BFieldElement::get_primitive_root_of_unity(2).0.unwrap();
    let (fst, snd) = rp.get_round_constant_polynomials(minus_one);
    assert!(fst.is_empty() && snd.is_empty());
    assert!(rp.get_air_constraints(minus_one).is_empty());
}

#[test]
fn constraints_without_rounds() {
    let mut rp = small_params();
    rp.steps_count = 0;
    let omicron = BFieldElement::get_primitive_root_of_unity(1 << 5).0.unwrap();
    let (fst, snd) = rp.get_round_constant_polynomials(omicron);
    assert_eq!(rp.m, fst.len());
    assert_eq!(rp.m, snd.len());
    assert!(fst.iter().chain(snd.iter()).all(|p| p.terms.is_empty()));
    let air = rp.get_air_constraints(omicron);
    assert_eq!(rp.m, air.len());
    assert_eq!(e(1), rp.hash(&e(1)));
}
