use twenty_first::b_field_element::BFieldElement;
use twenty_first::mpolynomial::MPolynomial;
use twenty_first::polynomial::Polynomial;

fn e(v: u128) -> BFieldElement {
    BFieldElement::new(v)
}

#[test]
fn mpolynomial_arithmetic_evaluates_pointwise() {
    let one = BFieldElement::ring_one();
    let vars = MPolynomial::variables(3, one);
    let x = &vars[0];
    let y = &vars[1];
    let z = &vars[2];
    // (x + 2y)^3 - z * 5
    let p = x.add(&y.scalar_mul(e(2))).mod_pow(3, one).sub(&z.scalar_mul(e(5)));
    let point = vec![e(3), e(4), e(7)];
    let expected = e(3 + 8).mod_pow(3).sub(e(35));
    assert_eq!(expected, p.evaluate(&point));
    let q = x.mul(y).add(&MPolynomial::from_constant(e(9), 3));
    assert_eq!(e(12 + 9), q.evaluate(&point));
}

#[test]
fn mpolynomial_like_terms_merge_and_cancel() {
    let one = BFieldElement::ring_one();
    let vars = MPolynomial::variables(2, one);
    let x = &vars[0];
    let doubled = x.add(x);
    assert_eq!(1, doubled.terms.len());
    assert_eq!(e(2), doubled.terms[0].1);
    let zero = x.sub(x);
    assert!(zero.terms.is_empty());
    assert!(MPolynomial::from_constant(BFieldElement::ring_zero(), 2).terms.is_empty());
}

#[test]
fn lift_places_a_univariate_in_one_variable() {
    let p = Polynomial::new(vec![e(1), e(0), e(3)]);
    let lifted = MPolynomial::lift(&p, 1, 3);
    assert_eq!(2, lifted.terms.len());
    let point = vec![e(100), e(5), e(200)];
    assert_eq!(p.evaluate(&e(5)), lifted.evaluate(&point));
    assert_eq!(e(76), lifted.evaluate(&point));
}

#[test]
fn lagrange_interpolation_passes_through_points() {
    let points = vec![(e(1), e(5)), (e(2), e(7)), (e(4), e(100))];
    let p = Polynomial::slow_lagrange_interpolation(&points);
    assert_eq!(3, p.coefficients.len());
    for (x, y) in points {
        assert_eq!(y, p.evaluate(&x));
    }
    // A line through two points.
    let line = Polynomial::slow_lagrange_interpolation(&vec![(e(0), e(3)), (e(1), e(5))]);
    assert_eq!(vec![e(3), e(2)], line.coefficients);
}

#[test]
fn interpolation_recovers_a_polynomial_from_its_values() {
    let p = Polynomial::new(vec![e(9), e(8), e(7), e(6)]);
    let omega = BFieldElement::get_primitive_root_of_unity(4).0.unwrap();
    let domain = omega.get_cyclic_group_elements(None);
    let points: Vec<(BFieldElement, BFieldElement)> =
        domain[..4].iter().map(|x| (*x, p.evaluate(x))).collect();
    let q = Polynomial::slow_lagrange_interpolation(&points);
    assert_eq!(p.coefficients, q.coefficients);
}

#[test]
fn polynomial_products() {
    // (1 + 2X)(3 + X + X^2) = 3 + 7X + 3X^2 + 2X^3
    let a = Polynomial::new(vec![e(1), e(2)]);
    let b = Polynomial::new(vec![e(3), e(1), e(1)]);
    let c = a.mul(&b);
    assert_eq!(vec![e(3), e(7), e(3), e(2)], c.coefficients);
    for x in [0u128, 1, 5, 1 << 40] {
        assert_eq!(a.evaluate(&e(x)).mul(b.evaluate(&e(x))), c.evaluate(&e(x)));
    }
    assert!(a.mul(&Polynomial::new(vec![])).coefficients.is_empty());
    let scaled = b.scalar_mul(e(BFieldElement::MAX));
    assert_eq!(vec![e(BFieldElement::MAX - 2), e(BFieldElement::MAX), e(BFieldElement::MAX)], scaled.coefficients);
}
