use vstd::prelude::*;

use crate::error::Error;
use crate::field_element::FieldElement;
use crate::lookup_table::{contains_key, contains_row, LookupTable};
use crate::multiset::MultiSet;

verus! {

/// Four parallel columns of per-gate wire assignments: row `i` across the
/// columns is gate `i`'s `(left, right, output, fourth)` wires. Built
/// incrementally, one append per circuit gate, and handed off whole to the
/// polynomial-encoding stage afterwards.
#[derive(Clone, Debug, PartialEq, Eq)]
pub struct WitnessTable {
    /// The left wires of the gates, in gate order.
    pub f_1: MultiSet,
    /// The right wires of the gates, in gate order.
    pub f_2: MultiSet,
    /// The output wires of the gates, in gate order.
    pub f_3: MultiSet,
    /// The fourth wires of the gates, in gate order.
    pub f_4: MultiSet,
}

impl WitnessTable {
    /// The lock-step alignment invariant: all four columns always have the
    /// same length, so row position encodes gate identity. Both mutators
    /// preserve it, and after `n` accepted appends the common length is
    /// exactly `n`.
    pub open spec fn aligned(&self) -> bool {
        &&& self.f_1@.len() == self.f_2@.len()
        &&& self.f_1@.len() == self.f_3@.len()
        &&& self.f_1@.len() == self.f_4@.len()
    }

    /// Initialises an empty witness table of arity 4.
    pub fn new() -> (r: Self)
        ensures
            r.f_1@ == Seq::<int>::empty(),
            r.f_2@ == Seq::<int>::empty(),
            r.f_3@ == Seq::<int>::empty(),
            r.f_4@ == Seq::<int>::empty(),
            r.aligned(),
    {
        WitnessTable {
            f_1: MultiSet::new(),
            f_2: MultiSet::new(),
            f_3: MultiSet::new(),
            f_4: MultiSet::new(),
        }
    }

    /// Records one gate's wire values directly, without consulting any
    /// lookup table: every column grows by exactly the given value, in
    /// lock-step, and the call never fails. If the values are not members
    /// of the preprocessed table, the proof fails later, when witness and
    /// preprocessed tables are compared.
    pub fn from_wire_values(
        &mut self,
        left_wire_val: FieldElement,
        right_wire_val: FieldElement,
        output_wire_val: FieldElement,
        fourth_wire_val: FieldElement,
    )
        ensures
            final(self).f_1@ == old(self).f_1@.push(left_wire_val@),
            final(self).f_2@ == old(self).f_2@.push(right_wire_val@),
            final(self).f_3@ == old(self).f_3@.push(output_wire_val@),
            final(self).f_4@ == old(self).f_4@.push(fourth_wire_val@),
            old(self).aligned() ==> final(self).aligned(),
    {
        self.f_1.push(left_wire_val);
        self.f_2.push(right_wire_val);
        self.f_3.push(output_wire_val);
        self.f_4.push(fourth_wire_val);
    }

    /// Looks the key `(left, right, fourth)` up in `lookup_table`. On a hit
    /// the four values `(left, right, result, fourth)` are appended to the
    /// four columns in lock-step, the result being the table's output for
    /// that key. On a miss nothing at all is appended — every column keeps
    /// its prior contents — and the miss is propagated to the caller.
    pub fn value_from_table(
        &mut self,
        lookup_table: &LookupTable,
        left_wire_val: FieldElement,
        right_wire_val: FieldElement,
        fourth_wire_val: FieldElement,
    ) -> (r: Result<(), Error>)
        ensures
            r is Ok <==> contains_key(
                lookup_table@,
                left_wire_val@,
                right_wire_val@,
                fourth_wire_val@,
            ),
            r is Ok ==> {
                &&& final(self).f_1@ == old(self).f_1@.push(left_wire_val@)
                &&& final(self).f_2@ == old(self).f_2@.push(right_wire_val@)
                &&& final(self).f_4@ == old(self).f_4@.push(fourth_wire_val@)
                &&& exists|c: int|
                    {
                        &&& #[trigger] contains_row(
                            lookup_table@,
                            left_wire_val@,
                            right_wire_val@,
                            c,
                            fourth_wire_val@,
                        )
                        &&& final(self).f_3@ == old(self).f_3@.push(c)
                    }
            },
            r is Err ==> *final(self) == *old(self),
            r is Err ==> r == Err::<(), Error>(Error::ElementNotIndexed),
            old(self).aligned() ==> final(self).aligned(),
    {
        let output_wire_val = match lookup_table.lookup(
            left_wire_val,
            right_wire_val,
            fourth_wire_val,
        ) {
            Ok(value) => value,
            Err(e) => {
                return Err(e);
            },
        };
        self.f_1.push(left_wire_val);
        self.f_2.push(right_wire_val);
        self.f_3.push(output_wire_val);
        self.f_4.push(fourth_wire_val);
        Ok(())
    }
}

impl Default for WitnessTable {
    /// The default witness table is the valid initial state: four empty
    /// columns.
    fn default() -> (r: Self)
        ensures
            r.f_1@ == Seq::<int>::empty(),
            r.f_2@ == Seq::<int>::empty(),
            r.f_3@ == Seq::<int>::empty(),
            r.f_4@ == Seq::<int>::empty(),
            r.aligned(),
    {
        WitnessTable::new()
    }
}

} // verus!
