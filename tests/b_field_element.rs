use rand::Rng;
use rand::RngCore;
use twenty_first::b_field_element::BFieldElement;
use twenty_first::polynomial::Polynomial;

fn bfield_elem(value: u128) -> BFieldElement {
    BFieldElement::new(value)
}

fn random_elements(length: usize) -> Vec<BFieldElement> {
    let mut rng = rand::thread_rng();
    let mut values: Vec<BFieldElement> = Vec::with_capacity(length);
    while values.len() < length {
        if let Some(e) = BFieldElement::try_from_canonical(rng.next_u64()) {
            values.push(e);
        }
    }
    values
}

#[test]
fn test_zero_one() {
    let zero = bfield_elem(0);
    let one = bfield_elem(1);

    assert!(zero.is_zero());
    assert!(!zero.is_one());
    assert!(!one.is_zero());
    assert!(one.is_one());
    assert!(bfield_elem(BFieldElement::MAX + 1).is_zero());
    assert!(bfield_elem(BFieldElement::MAX + 2).is_one());
}

#[test]
fn increment_and_decrement_test() {
    let mut val_a = bfield_elem(0);
    let mut val_b = bfield_elem(1);
    let mut val_c = bfield_elem(BFieldElement::MAX - 1);
    let max = BFieldElement::new(BFieldElement::MAX);
    val_a.increment();
    assert!(val_a.is_one());
    val_b.increment();
    assert!(!val_b.is_one());
    assert_eq!(BFieldElement::new(2), val_b);
    val_b.increment();
    assert_eq!(BFieldElement::new(3), val_b);
    assert_ne!(max, val_c);
    val_c.increment();
    assert_eq!(max, val_c);
    val_c.increment();
    assert!(val_c.is_zero());
    val_c.increment();
    assert!(val_c.is_one());
    val_c.decrement();
    assert!(val_c.is_zero());
    val_c.decrement();
    assert_eq!(max, val_c);
    val_c.decrement();
    assert_eq!(bfield_elem(BFieldElement::MAX - 1), val_c);
}

#[test]
fn identity_tests() {
    let mut rng = rand::thread_rng();
    for _ in 0..100 {
        let n: u128 = rng.gen_range(0..BFieldElement::MAX);
        let zero = bfield_elem(0);
        let one = bfield_elem(1);
        let other = bfield_elem(n);
        assert_eq!(other, zero.add(other), "left zero identity");
        assert_eq!(other, other.add(zero), "right zero identity");
        assert_eq!(other, one.mul(other), "left one identity");
        assert_eq!(other, other.mul(one), "right one identity");
    }
}

#[test]
fn inversion_test() {
    let one_inv = bfield_elem(1);
    let two_inv = bfield_elem(9223372034707292161);
    let three_inv = bfield_elem(12297829379609722881);
    let four_inv = bfield_elem(13835058052060938241);
    let five_inv = bfield_elem(14757395255531667457);
    let six_inv = bfield_elem(15372286724512153601);
    let seven_inv = bfield_elem(2635249152773512046);
    let eight_inv = bfield_elem(16140901060737761281);
    let nine_inv = bfield_elem(4099276459869907627);
    let ten_inv = bfield_elem(16602069662473125889);
    let eightfive_million_sixhundred_and_seventyone_onehundred_and_six_inv =
        bfield_elem(13115294102219178839);
    assert_eq!(two_inv, bfield_elem(2).inverse());
    assert_eq!(three_inv, bfield_elem(3).inverse());
    assert_eq!(four_inv, bfield_elem(4).inverse());
    assert_eq!(five_inv, bfield_elem(5).inverse());
    assert_eq!(six_inv, bfield_elem(6).inverse());
    assert_eq!(seven_inv, bfield_elem(7).inverse());
    assert_eq!(eight_inv, bfield_elem(8).inverse());
    assert_eq!(nine_inv, bfield_elem(9).inverse());
    assert_eq!(ten_inv, bfield_elem(10).inverse());
    assert_eq!(
        eightfive_million_sixhundred_and_seventyone_onehundred_and_six_inv,
        bfield_elem(85671106).inverse()
    );

    let inverses = [
        one_inv,
        two_inv,
        three_inv,
        four_inv,
        five_inv,
        six_inv,
        seven_inv,
        eight_inv,
        nine_inv,
        ten_inv,
        eightfive_million_sixhundred_and_seventyone_onehundred_and_six_inv,
    ];
    let values = [
        bfield_elem(1),
        bfield_elem(2),
        bfield_elem(3),
        bfield_elem(4),
        bfield_elem(5),
        bfield_elem(6),
        bfield_elem(7),
        bfield_elem(8),
        bfield_elem(9),
        bfield_elem(10),
        bfield_elem(85671106),
    ];
    let calculated_inverses = BFieldElement::batch_inversion(values.to_vec());
    assert_eq!(values.len(), calculated_inverses.len());
    let calculated_inverse_inverses = BFieldElement::batch_inversion(calculated_inverses.to_vec());
    for i in 0..calculated_inverses.len() {
        assert_eq!(inverses[i], calculated_inverses[i]);
        assert_eq!(calculated_inverse_inverses[i], values[i]);
    }

    let empty_inversion = BFieldElement::batch_inversion(vec![]);
    assert!(empty_inversion.is_empty());

    let singleton_inversion = BFieldElement::batch_inversion(vec![bfield_elem(2)]);
    assert_eq!(1, singleton_inversion.len());
    assert_eq!(two_inv, singleton_inversion[0]);

    let duplet_inversion = BFieldElement::batch_inversion(vec![bfield_elem(2), bfield_elem(1)]);
    assert_eq!(2, duplet_inversion.len());
    assert_eq!(two_inv, duplet_inversion[0]);
    assert_eq!(one_inv, duplet_inversion[1]);
}

#[test]
fn inversion_property_based_test() {
    let mut rng = rand::thread_rng();
    for _ in 0..30 {
        let rand: u128 = rng.gen_range(1..BFieldElement::MAX);
        assert!((bfield_elem(rand).inverse().mul(bfield_elem(rand))).is_one());
    }
}

#[test]
fn batch_inversion_pbt() {
    let test_iterations = 100;
    for i in 0..test_iterations {
        let rands: Vec<BFieldElement> = random_elements(i)
            .into_iter()
            .map(|x| if x.is_zero() { BFieldElement::ring_one() } else { x })
            .collect();
        let rands_inv: Vec<BFieldElement> = BFieldElement::batch_inversion(rands.clone());
        assert_eq!(i as usize, rands_inv.len());
        for (mut rand, rand_inv) in rands.into_iter().zip(rands_inv.into_iter()) {
            assert!((rand.mul(rand_inv)).is_one());
            assert!((rand_inv.mul(rand)).is_one());
            assert_eq!(rand.inverse(), rand_inv);
            rand.increment();
            assert!(!(rand.mul(rand_inv)).is_one());
        }
    }
}

#[test]
fn mul_div_plus_minus_property_based_test() {
    let rands: Vec<BFieldElement> = random_elements(300)
        .into_iter()
        .map(|x| if x.is_zero() { BFieldElement::ring_one() } else { x })
        .collect();
    for i in 1..rands.len() {
        let a = rands[i - 1];
        let b = rands[i];
        let ab = a.mul(b);
        let a_o_b = a.div(b);
        let b_o_a = b.div(a);
        assert_eq!(a, ab.div(b));
        assert_eq!(b, ab.div(a));
        assert_eq!(a, a_o_b.mul(b));
        assert_eq!(b, b_o_a.mul(a));

        assert_eq!(a.sub(b).add(b), a);
        assert_eq!(b.sub(a).add(a), b);
        assert!((a.sub(a)).is_zero());
        assert!((b.sub(b)).is_zero());
        assert_eq!(a.neg().add(a), BFieldElement::ring_zero());
    }
}

#[test]
fn create_polynomial_test() {
    let a = Polynomial::new(vec![bfield_elem(1), bfield_elem(3), bfield_elem(7)]);
    let b = Polynomial::new(vec![bfield_elem(2), bfield_elem(5), bfield_elem(BFieldElement::MAX)]);
    let expected = Polynomial::new(vec![bfield_elem(3), bfield_elem(8), bfield_elem(6)]);
    assert_eq!(expected.coefficients, a.add(&b).coefficients);
}

#[test]
fn polynomial_addition_trims_trailing_zeros() {
    let a = Polynomial::new(vec![bfield_elem(1), bfield_elem(1)]);
    let b = Polynomial::new(vec![bfield_elem(2), bfield_elem(BFieldElement::MAX)]);
    assert_eq!(vec![bfield_elem(3)], a.add(&b).coefficients);
    let c = Polynomial::new(vec![bfield_elem(1)]);
    let d = Polynomial::new(vec![bfield_elem(BFieldElement::MAX)]);
    assert!(c.add(&d).coefficients.is_empty());
}

#[test]
fn mod_pow_test() {
    assert!(BFieldElement::new(281474976710656).mod_pow(4).is_one());
    assert_eq!(
        BFieldElement::new(281474976710656),
        BFieldElement::new(281474976710656).mod_pow(5)
    );
    assert!(BFieldElement::new(18446744069414584320).mod_pow(2).is_one());
    assert!(BFieldElement::new(18446744069397807105).mod_pow(8).is_one());
    assert!(BFieldElement::new(2625919085333925275).mod_pow(10).is_one());
    assert!(BFieldElement::new(281474976645120).mod_pow(12).is_one());
}

#[test]
fn mod_pow_of_zero() {
    assert!(BFieldElement::new(0).mod_pow(0).is_one());
    assert!(BFieldElement::new(0).mod_pow(5).is_zero());
    assert_eq!(BFieldElement::new(3).mod_pow(4), BFieldElement::new(81));
}

#[test]
fn get_primitive_root_of_unity_test() {
    for i in 1..33 {
        let power: u128 = 1 << i;
        let root_result = BFieldElement::get_primitive_root_of_unity(power);
        match root_result.0 {
            Some(root) => println!("{} => {},", power, root.value()),
            None => println!("Found no primitive root of unity for n = {}", power),
        };
        let root = root_result.0.unwrap();
        assert!(root.mod_pow(power as u64).is_one());
        assert!(!root.mod_pow(power as u64 / 2).is_one());
        assert_eq!(vec![2u128], root_result.1);
    }
}

#[test]
fn primitive_root_of_order_four() {
    let (root, primes) = BFieldElement::get_primitive_root_of_unity(4);
    let root = root.unwrap();
    assert_eq!(BFieldElement::new(281474976710656), root);
    assert!(root.mod_pow(4).is_one());
    assert!(!root.mod_pow(2).is_one());
    assert_eq!(vec![2u128], primes);
}

#[test]
fn primitive_roots_of_other_orders() {
    let (one, primes) = BFieldElement::get_primitive_root_of_unity(1);
    assert!(one.unwrap().is_one());
    assert!(primes.is_empty());
    assert!(BFieldElement::get_primitive_root_of_unity(0).0.unwrap().is_one());
    for (n, expected_primes) in [
        (3u128, vec![3u128]),
        (6, vec![2, 3]),
        (10, vec![2, 5]),
        (12, vec![2, 3]),
        (65537, vec![65537]),
        (3 * 5 * 17 * 257 * 65537, vec![3, 5, 17, 257, 65537]),
        (1u128 << 32, vec![2]),
        ((1u128 << 32) * 3, vec![2, 3]),
        (0xffff_ffff_0000_0000, vec![2, 3, 5, 17, 257, 65537]),
    ] {
        let (root, primes) = BFieldElement::get_primitive_root_of_unity(n);
        let root = root.unwrap();
        assert_eq!(expected_primes, primes);
        assert!(root.mod_pow(n as u64).is_one());
        for q in primes {
            assert!(!root.mod_pow((n / q) as u64).is_one());
        }
    }
    // Orders that do not divide p - 1 have no root.
    for n in [7u128, 11, 1 << 33, 1 << 40, 0xffff_ffff_0000_0001, u128::MAX] {
        let (root, primes) = BFieldElement::get_primitive_root_of_unity(n);
        assert!(root.is_none());
        assert!(primes.is_empty());
    }
}

#[test]
fn checked_inverse() {
    assert_eq!(None, BFieldElement::new(0).try_inverse());
    assert_eq!(Some(bfield_elem(9223372034707292161)), BFieldElement::new(2).try_inverse());
    let x = BFieldElement::new(85671106);
    assert!(x.mul(x.try_inverse().unwrap()).is_one());
}

#[test]
fn legendre_symbol_values() {
    assert_eq!(0, BFieldElement::new(0).legendre_symbol());
    assert_eq!(1, BFieldElement::new(1).legendre_symbol());
    assert_eq!(1, BFieldElement::new(4).legendre_symbol());
    // 7 generates the multiplicative group, so it is not a square.
    assert_eq!(-1, BFieldElement::new(7).legendre_symbol());
}

#[test]
fn field_laws_on_samples() {
    let xs = random_elements(20);
    for w in xs.windows(3) {
        let (a, b, c) = (w[0], w[1], w[2]);
        assert_eq!(a.add(b).add(c), a.add(b.add(c)));
        assert_eq!(a.add(b), b.add(a));
        assert_eq!(a.mul(b).mul(c), a.mul(b.mul(c)));
        assert_eq!(a.mul(b), b.mul(a));
        assert_eq!(a.mul(b.add(c)), a.mul(b).add(a.mul(c)));
        assert_eq!(a.add(BFieldElement::ring_zero()), a);
        assert_eq!(a.mul(BFieldElement::ring_one()), a);
        assert!(a.neg().add(a).is_zero());
        if !a.is_zero() {
            assert!(a.mul(a.inverse()).is_one());
        }
    }
}

#[test]
fn cyclic_group_of_order_four() {
    let root = BFieldElement::new(281474976710656);
    let elements = root.get_cyclic_group_elements(None);
    assert_eq!(5, elements.len());
    assert!(elements[0].is_one());
    assert_eq!(root, elements[1]);
    assert!(elements[4].is_one());
    let capped = root.get_cyclic_group_elements(Some(3));
    assert_eq!(3, capped.len());
}

#[test]
fn sampling_refuses_words_above_max() {
    assert!(BFieldElement::try_from_canonical(u64::MAX).is_none());
    assert!(BFieldElement::try_from_canonical(BFieldElement::QUOTIENT as u64).is_none());
    assert_eq!(
        BFieldElement::new(BFieldElement::MAX),
        BFieldElement::try_from_canonical(BFieldElement::MAX as u64).unwrap()
    );
}

#[test]
fn byte_decoding() {
    let bytes = 0x0102_0304_0506_0708u64.to_le_bytes().to_vec();
    assert_eq!(BFieldElement::new(0x0102_0304_0506_0708), BFieldElement::from_vecu8(bytes.clone()));
    let mut longer = bytes.clone();
    longer.extend_from_slice(&[9, 9, 9]);
    assert_eq!(BFieldElement::new(0x0102_0304_0506_0708), BFieldElement::from_vecu8(longer.clone()));
    assert_eq!(BFieldElement::new(0), BFieldElement::from_vecu8((BFieldElement::QUOTIENT as u64).to_le_bytes().to_vec()));
    assert_eq!(Some(BFieldElement::new(0x0102_0304_0506_0708)), BFieldElement::try_decode(&bytes));
    assert_eq!(None, BFieldElement::try_decode(&longer));
    assert_eq!(None, BFieldElement::try_decode(&u64::MAX.to_le_bytes().to_vec()));
    assert_eq!(None, BFieldElement::try_decode(&(BFieldElement::QUOTIENT as u64).to_le_bytes().to_vec()));
    let max = (BFieldElement::MAX as u64).to_le_bytes().to_vec();
    assert_eq!(Some(BFieldElement::new(BFieldElement::MAX)), BFieldElement::try_decode(&max));
}
