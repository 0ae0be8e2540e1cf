use twenty_first::b_field_element::BFieldElement;
use twenty_first::ram_table::{pad_height, ExtRAMTable, RAMTable, BASE_WIDTH, FULL_WIDTH};
use twenty_first::table_collection::TableId;
use twenty_first::x_field_element::XFieldElement;

#[test]
fn ram_table_widths_and_heights() {
    let generator = BFieldElement::new(7);
    let rows = vec![vec![BFieldElement::ring_zero(); BASE_WIDTH]; 5];
    let prover = RAMTable::new_prover(generator, 1 << 32, 2, rows);
    assert_eq!(BASE_WIDTH, prover.base_width());
    assert_eq!(FULL_WIDTH, prover.full_width());
    assert_eq!(8, prover.padded_height());
    assert_eq!("RAMTable", prover.name());
    let verifier = RAMTable::new_verifier(generator, 1 << 32, 2, 8);
    assert_eq!(BASE_WIDTH, verifier.base_width());
    assert_eq!(8, verifier.padded_height());
    let ext = ExtRAMTable::with_padded_height(XFieldElement::new_const(generator), 1 << 32, 2, 1);
    assert_eq!(FULL_WIDTH, ext.full_width());
    assert_eq!(BASE_WIDTH, ext.base_width());
    assert_eq!("ExtRAMTable", ext.name());
}

#[test]
fn ram_table_padding() {
    let one = BFieldElement::ring_one();
    let rows = vec![vec![one; BASE_WIDTH]; 5];
    let mut table = RAMTable::new_prover(BFieldElement::new(7), 1 << 32, 2, rows);
    table.pad();
    assert_eq!(8, table.data().len());
    for k in 0..5 {
        assert_eq!(vec![one; BASE_WIDTH], table.data()[k]);
    }
    for k in 5..8 {
        assert_eq!(vec![BFieldElement::ring_zero(); BASE_WIDTH], table.data()[k]);
    }
    let mut empty = RAMTable::new_prover(BFieldElement::new(7), 1 << 32, 2, vec![]);
    empty.pad();
    assert!(empty.data().is_empty());
}

#[test]
fn padded_heights() {
    assert_eq!(0, pad_height(0));
    assert_eq!(1, pad_height(1));
    assert_eq!(2, pad_height(2));
    assert_eq!(4, pad_height(3));
    assert_eq!(1024, pad_height(1000));
    assert_eq!(1 << 31, pad_height((1 << 30) + 1));
}

#[test]
fn table_ids_compare() {
    assert_eq!(TableId::RamTable, TableId::RamTable);
    assert_ne!(TableId::RamTable, TableId::HashTable);
}

fn x(c0: u128, c1: u128, c2: u128) -> [u64; 3] {
    let e = XFieldElement::new([BFieldElement::new(c0), BFieldElement::new(c1), BFieldElement::new(c2)]);
    [e.coefficients[0].value(), e.coefficients[1].value(), e.coefficients[2].value()]
}

fn xe(c0: u128, c1: u128, c2: u128) -> XFieldElement {
    XFieldElement::new([BFieldElement::new(c0), BFieldElement::new(c1), BFieldElement::new(c2)])
}

fn coeffs(e: &XFieldElement) -> [u64; 3] {
    [e.coefficients[0].value(), e.coefficients[1].value(), e.coefficients[2].value()]
}

#[test]
fn extension_field_products_reduce_modulo_the_cubic() {
    let big_x = xe(0, 1, 0);
    let x_squared = xe(0, 0, 1);
    // X^3 = X - 1
    assert_eq!(x(BFieldElement::MAX, 1, 0), coeffs(&big_x.mul(&x_squared)));
    // X^4 = X^2 - X
    assert_eq!(x(0, BFieldElement::MAX, 1), coeffs(&x_squared.mul(&x_squared)));
    let a = xe(3, 5, 7);
    let b = xe(11, 13, 17);
    let c = xe(19, 23, 29);
    assert_eq!(coeffs(&a), coeffs(&a.mul(&XFieldElement::ring_one())));
    assert_eq!(coeffs(&a.mul(&b)), coeffs(&b.mul(&a)));
    assert_eq!(coeffs(&a.mul(&b).mul(&c)), coeffs(&a.mul(&b.mul(&c))));
    assert_eq!(coeffs(&a.mul(&b.add(&c))), coeffs(&a.mul(&b).add(&a.mul(&c))));
    assert_eq!(coeffs(&XFieldElement::ring_zero()), coeffs(&a.sub(&a)));
    assert_eq!(coeffs(&XFieldElement::ring_zero()), coeffs(&a.neg().add(&a)));
}
