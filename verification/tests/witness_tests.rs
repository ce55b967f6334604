use plonk_lookup::{selector_add, selector_xor, Error, FieldElement, LookupTable, WitnessTable};

fn fe(n: u64) -> FieldElement {
    FieldElement::from_integer(n)
}

fn lengths(w: &WitnessTable) -> (usize, usize, usize, usize) {
    (w.f_1.len(), w.f_2.len(), w.f_3.len(), w.f_4.len())
}

#[test]
fn new_witness_table_has_four_empty_columns() {
    let w = WitnessTable::new();
    assert_eq!(lengths(&w), (0, 0, 0, 0));
    assert_eq!(lengths(&WitnessTable::default()), (0, 0, 0, 0));
}

#[test]
fn free_appends_always_grow_all_columns_in_lock_step() {
    let mut w = WitnessTable::new();
    for n in 0..10u64 {
        w.from_wire_values(fe(n), fe(n + 1), fe(n + 2), fe(n + 3));
        let m = (n + 1) as usize;
        assert_eq!(lengths(&w), (m, m, m, m));
    }
    assert_eq!(w.f_1.get(4).signed_value(), 4);
    assert_eq!(w.f_2.get(4).signed_value(), 5);
    assert_eq!(w.f_3.get(4).signed_value(), 6);
    assert_eq!(w.f_4.get(4).signed_value(), 7);
}

#[test]
fn accepted_lookups_append_the_whole_table_row() {
    let mut t = LookupTable::new();
    t.insert_multi_xor(0, 4);
    t.insert_multi_add(2, 3);
    let mut w = WitnessTable::new();

    assert_eq!(w.value_from_table(&t, fe(2), fe(3), selector_add()), Ok(()));
    assert_eq!(lengths(&w), (1, 1, 1, 1));
    assert_eq!(w.f_1.get(0).signed_value(), 2);
    assert_eq!(w.f_2.get(0).signed_value(), 3);
    assert_eq!(w.f_3.get(0).signed_value(), 5);
    assert_eq!(w.f_4.get(0).signed_value(), 0);

    assert_eq!(w.value_from_table(&t, fe(4), fe(1), selector_xor()), Ok(()));
    assert_eq!(lengths(&w), (2, 2, 2, 2));
    assert_eq!(w.f_1.get(1).signed_value(), 4);
    assert_eq!(w.f_2.get(1).signed_value(), 1);
    assert_eq!(w.f_3.get(1).signed_value(), 5);
    assert_eq!(w.f_4.get(1).signed_value(), -1);
}

#[test]
fn rejected_lookups_leave_every_column_untouched() {
    let mut t = LookupTable::new();
    t.insert_multi_xor(0, 4);
    t.insert_multi_add(2, 3);
    let mut w = WitnessTable::new();
    assert_eq!(w.value_from_table(&t, fe(2), fe(3), selector_add()), Ok(()));

    // 6 is outside the XOR interval [0, 4]
    assert_eq!(
        w.value_from_table(&t, fe(4), fe(6), selector_xor()),
        Err(Error::ElementNotIndexed)
    );
    // 22 is outside the XOR interval [0, 4]
    assert_eq!(
        w.value_from_table(&t, fe(22), fe(1), selector_xor()),
        Err(Error::ElementNotIndexed)
    );
    // 0 is outside the addition interval [2, 3]
    assert_eq!(
        w.value_from_table(&t, fe(0), fe(1), selector_add()),
        Err(Error::ElementNotIndexed)
    );

    assert_eq!(lengths(&w), (1, 1, 1, 1));
    assert_eq!(w.f_1.get(0).signed_value(), 2);
    assert_eq!(w.f_2.get(0).signed_value(), 3);
    assert_eq!(w.f_3.get(0).signed_value(), 5);
    assert_eq!(w.f_4.get(0).signed_value(), 0);
}

#[test]
fn one_sided_range_violation_still_misses() {
    let t = LookupTable::xor_table(0, 3);
    let mut w = WitnessTable::new();
    // 2 is inside [0, 3] but 5 is not, so the key has no row
    assert_eq!(
        w.value_from_table(&t, fe(2), fe(5), selector_xor()),
        Err(Error::ElementNotIndexed)
    );
    assert_eq!(lengths(&w), (0, 0, 0, 0));
}

#[test]
fn validated_and_free_appends_share_the_gate_count() {
    let t = LookupTable::xor_table(0, 3);
    let mut w = WitnessTable::new();
    let mut accepted: usize = 0;
    for a in 0..4u64 {
        assert_eq!(w.value_from_table(&t, fe(a), fe(3 - a), selector_xor()), Ok(()));
        accepted += 1;
        w.from_wire_values(fe(a), fe(a), fe(0), selector_xor());
        accepted += 1;
        assert_eq!(lengths(&w), (accepted, accepted, accepted, accepted));
    }
    assert_eq!(accepted, 8);
}
