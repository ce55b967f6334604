use vstd::prelude::*;

use crate::field_element::FieldElement;

verus! {

/// An append-only ordered container of field elements: the shared storage
/// unit for lookup-table columns and witness columns.
///
/// Insertion order is preserved and nothing is ever removed, so the view is
/// the sequence of canonical representatives in push order. Whether two
/// containers should be compared as sequences or as true multisets is a
/// policy decision of the consuming proof stage; this core only appends.
#[derive(Clone, Debug, PartialEq, Eq)]
pub struct MultiSet {
    elems: Vec<FieldElement>,
}

impl View for MultiSet {
    type V = Seq<int>;

    closed spec fn view(&self) -> Seq<int> {
        self.elems@.map_values(|e: FieldElement| e@)
    }
}

impl MultiSet {
    /// An empty container.
    pub fn new() -> (r: Self)
        ensures
            r@ == Seq::<int>::empty(),
    {
        let r = MultiSet { elems: Vec::new() };
        proof {
            assert(r@ =~= Seq::<int>::empty());
        }
        r
    }

    /// The number of elements pushed so far.
    pub fn len(&self) -> (r: usize)
        ensures
            r == self@.len(),
    {
        self.elems.len()
    }

    /// Appends `value` at the end; never fails.
    pub fn push(&mut self, value: FieldElement)
        ensures
            final(self)@ == old(self)@.push(value@),
    {
        let ghost prev: Seq<int> = self@;
        self.elems.push(value);
        proof {
            assert(self@ =~= prev.push(value@));
        }
    }

    /// The element at position `index`.
    pub fn get(&self, index: usize) -> (r: FieldElement)
        requires
            index < self@.len(),
        ensures
            r@ == self@[index as int],
    {
        self.elems[index]
    }
}

impl Default for MultiSet {
    /// The default container is the valid initial state: empty.
    fn default() -> (r: Self)
        ensures
            r@ == Seq::<int>::empty(),
    {
        MultiSet::new()
    }
}

} // verus!
