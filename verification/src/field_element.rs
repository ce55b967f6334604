use vstd::prelude::*;

verus! {

/// An exact element of the proving system's scalar field, held as its
/// canonical signed integer representative.
///
/// This core only ever works inside a narrow window of the field around
/// zero: embeddings of machine integers, sums of such embeddings, and the
/// additive inverse of one (used as an operation selector). Over any prime
/// field whose modulus is larger than twice `i128::MAX`, the elements of
/// that window correspond one-to-one to the `i128` representatives held
/// here, and field addition, negation and equality agree exactly with the
/// integer operations, so every statement proved of this type holds of the
/// field elements it stands for. Conversion to a full-width field value is
/// the consuming prover's concern.
#[derive(Clone, Copy, Debug, PartialEq, Eq, Structural)]
pub struct FieldElement {
    repr: i128,
}

impl View for FieldElement {
    type V = int;

    closed spec fn view(&self) -> int {
        self.repr as int
    }
}

/// Two field elements are the same value exactly when their canonical
/// representatives agree: the representation holds nothing besides the
/// represented value.
pub proof fn lemma_eq_canonical(x: FieldElement, y: FieldElement)
    ensures
        (x == y) <==> (x@ == y@),
{
    if x@ == y@ {
        assert(x.repr == y.repr);
    }
}

impl FieldElement {
    /// The additive identity.
    pub fn zero() -> (r: Self)
        ensures
            r@ == 0,
    {
        FieldElement { repr: 0 }
    }

    /// The multiplicative identity.
    pub fn one() -> (r: Self)
        ensures
            r@ == 1,
    {
        FieldElement { repr: 1 }
    }

    /// The canonical embedding of a small non-negative integer into the
    /// field.
    pub fn from_integer(n: u64) -> (r: Self)
        ensures
            r@ == n,
    {
        FieldElement { repr: n as i128 }
    }

    /// Field addition, exact on the represented window; the bound is the
    /// machine limit of the representation, never reached by the elements
    /// this core builds.
    pub fn add(self, other: Self) -> (r: Self)
        requires
            i128::MIN <= self@ + other@ <= i128::MAX,
        ensures
            r@ == self@ + other@,
    {
        FieldElement { repr: self.repr + other.repr }
    }

    /// The additive inverse; the excluded representative is a machine limit
    /// of the representation, not a field value this core can reach.
    pub fn neg(self) -> (r: Self)
        requires
            self@ != i128::MIN,
        ensures
            r@ == -self@,
    {
        FieldElement { repr: -self.repr }
    }

    /// The canonical signed representative, for consumers that embed this
    /// element into a concrete field.
    pub fn signed_value(&self) -> (r: i128)
        ensures
            r == self@,
    {
        self.repr
    }
}

} // verus!
