use plonk_lookup::{selector_add, selector_xor, FieldElement};

#[test]
fn zero_and_one_have_their_representatives() {
    assert_eq!(FieldElement::zero().signed_value(), 0);
    assert_eq!(FieldElement::one().signed_value(), 1);
}

#[test]
fn embedding_keeps_the_integer() {
    assert_eq!(FieldElement::from_integer(7).signed_value(), 7);
    assert_eq!(FieldElement::from_integer(0).signed_value(), 0);
    assert_eq!(FieldElement::from_integer(u64::MAX).signed_value(), u64::MAX as i128);
}

#[test]
fn addition_is_exact_on_the_window() {
    let two = FieldElement::from_integer(2);
    let three = FieldElement::from_integer(3);
    assert_eq!(two.add(three).signed_value(), 5);
    let big = FieldElement::from_integer(u64::MAX);
    assert_eq!(big.add(big).signed_value(), 2 * (u64::MAX as i128));
}

#[test]
fn negation_gives_the_additive_inverse() {
    assert_eq!(FieldElement::one().neg().signed_value(), -1);
    assert_eq!(FieldElement::from_integer(42).neg().signed_value(), -42);
    assert_eq!(FieldElement::zero().neg().signed_value(), 0);
}

#[test]
fn equality_is_exact() {
    assert_eq!(FieldElement::from_integer(5), FieldElement::from_integer(5));
    assert_ne!(FieldElement::from_integer(5), FieldElement::from_integer(6));
    assert_ne!(FieldElement::one().neg(), FieldElement::one());
}

#[test]
fn selectors_are_distinct_sentinels() {
    assert_eq!(selector_xor().signed_value(), -1);
    assert_eq!(selector_add().signed_value(), 0);
    assert_ne!(selector_xor(), selector_add());
}
