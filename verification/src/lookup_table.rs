use vstd::prelude::*;

use vstd::arithmetic::div_mod::{
    lemma_div_pos_is_pos, lemma_fundamental_div_mod, lemma_fundamental_div_mod_converse,
    lemma_mod_bound,
};

use crate::error::Error;
use crate::field_element::{lemma_eq_canonical, FieldElement};

verus! {

/// One table row: a `(operand1, operand2, result, selector)` instance of a
/// supported operation, kept as a flat 4-wide tuple so that every operation
/// family shares the row format the downstream polynomial encoding needs.
pub type Row = (FieldElement, FieldElement, FieldElement, FieldElement);

/// The mathematical model of a row: the four canonical representatives.
pub type RowModel = (int, int, int, int);

/// The selector value marking rows of the XOR family: the additive inverse
/// of one.
pub open spec fn spec_selector_xor() -> int {
    -1
}

/// The selector value marking rows of the addition family: zero.
pub open spec fn spec_selector_add() -> int {
    0
}

/// The selector element stored in the fourth column of every XOR row.
pub fn selector_xor() -> (r: FieldElement)
    ensures
        r@ == spec_selector_xor(),
{
    FieldElement::one().neg()
}

/// The selector element stored in the fourth column of every addition row.
pub fn selector_add() -> (r: FieldElement)
    ensures
        r@ == spec_selector_add(),
{
    FieldElement::zero()
}

/// The model of an executable row.
pub open spec fn row_model(r: Row) -> RowModel {
    (r.0@, r.1@, r.2@, r.3@)
}

/// The number of operand values in the inclusive interval `[min, max]`.
pub open spec fn range_width(min: u64, max: u64) -> int {
    max - min + 1
}

/// Row `k`, in insertion order, of the block of rows that
/// `insert_multi_xor(min, max)` appends: the operands run through
/// `[min, max]` in lexicographic order and the result column holds their
/// bitwise XOR.
pub open spec fn xor_row_model(min: u64, max: u64, k: int) -> RowModel {
    let a: int = min + k / range_width(min, max);
    let b: int = min + k % range_width(min, max);
    (a, b, ((a as u64) ^ (b as u64)) as int, spec_selector_xor())
}

/// Row `k`, in insertion order, of the block of rows that
/// `insert_multi_add(min, max)` appends: the operands run through
/// `[min, max]` in lexicographic order and the result column holds their
/// field sum.
pub open spec fn add_row_model(min: u64, max: u64, k: int) -> RowModel {
    let a: int = min + k / range_width(min, max);
    let b: int = min + k % range_width(min, max);
    (a, b, a + b, spec_selector_add())
}

/// Whether a row is a well-formed member of the XOR family.
pub open spec fn xor_row_ok(r: RowModel) -> bool {
    &&& r.3 == spec_selector_xor()
    &&& 0 <= r.0 <= u64::MAX
    &&& 0 <= r.1 <= u64::MAX
    &&& r.2 == ((r.0 as u64) ^ (r.1 as u64)) as int
}

/// Whether a row is a well-formed member of the addition family.
pub open spec fn add_row_ok(r: RowModel) -> bool {
    &&& r.3 == spec_selector_add()
    &&& 0 <= r.0 <= u64::MAX
    &&& 0 <= r.1 <= u64::MAX
    &&& r.2 == r.0 + r.1
}

/// Whether a row belongs to one of the supported operation families.
pub open spec fn row_ok(r: RowModel) -> bool {
    xor_row_ok(r) || add_row_ok(r)
}

/// Whether a row carries the lookup key `(a, b, d)` in its operand and
/// selector columns.
pub open spec fn key_matches(r: RowModel, a: int, b: int, d: int) -> bool {
    r.0 == a && r.1 == b && r.3 == d
}

/// Whether some row of `t` carries the lookup key `(a, b, d)`.
pub open spec fn contains_key(t: Seq<RowModel>, a: int, b: int, d: int) -> bool {
    exists|i: int| 0 <= i < t.len() && key_matches(#[trigger] t[i], a, b, d)
}

/// Whether `t` holds the full row `(a, b, c, d)`.
pub open spec fn contains_row(t: Seq<RowModel>, a: int, b: int, c: int, d: int) -> bool {
    exists|i: int| 0 <= i < t.len() && #[trigger] t[i] == (a, b, c, d)
}

/// A collection of 4-wide rows, each one a valid
/// `(operand1, operand2, result, selector)` instance of a supported binary
/// operation; built once by the bulk constructors, then read.
#[derive(Clone, Debug, PartialEq, Eq)]
pub struct LookupTable {
    rows: Vec<Row>,
}

impl View for LookupTable {
    type V = Seq<RowModel>;

    closed spec fn view(&self) -> Seq<RowModel> {
        self.rows@.map_values(|r: Row| row_model(r))
    }
}

impl LookupTable {
    /// Every row belongs to a supported operation family. Since each family
    /// owns a distinct selector and computes its result column from the
    /// operands alone, the result is a function of `(operand1, operand2,
    /// selector)` across the whole table, which is what makes `lookup`
    /// well-defined; see [`lemma_result_unique`].
    pub open spec fn inv(&self) -> bool {
        forall|i: int| 0 <= i < self@.len() ==> row_ok(#[trigger] self@[i])
    }

    /// An empty table.
    pub fn new() -> (r: Self)
        ensures
            r@ == Seq::<RowModel>::empty(),
            r.inv(),
    {
        let r = LookupTable { rows: Vec::new() };
        proof {
            assert(r@ =~= Seq::<RowModel>::empty());
        }
        r
    }

    /// The number of rows.
    pub fn len(&self) -> (r: usize)
        ensures
            r == self@.len(),
    {
        self.rows.len()
    }

    /// The row at position `index`.
    pub fn row(&self, index: usize) -> (r: Row)
        requires
            index < self@.len(),
        ensures
            row_model(r) == self@[index as int],
    {
        self.rows[index]
    }

    /// For every pair `(a, b)` over the inclusive interval `[min, max]`, in
    /// lexicographic order, appends the row
    /// `(a, b, a XOR b, SELECTOR_XOR)`: `(max - min + 1)²` rows in all,
    /// leaving every prior row in place.
    pub fn insert_multi_xor(&mut self, min: u64, max: u64)
        requires
            min <= max,
            old(self)@.len() + range_width(min, max) * range_width(min, max) <= usize::MAX,
        ensures
            final(self)@.len() == old(self)@.len() + range_width(min, max) * range_width(
                min,
                max,
            ),
            forall|i: int| 0 <= i < old(self)@.len() ==> final(self)@[i] == old(self)@[i],
            forall|k: int|
                0 <= k < range_width(min, max) * range_width(min, max) ==> final(self)@[old(
                    self,
                )@.len() + k] == #[trigger] xor_row_model(min, max, k),
            old(self).inv() ==> final(self).inv(),
    {
        proof {
            lemma_width_fits(min, max, old(self)@.len() as int);
        }
        let w: u64 = max - min + 1;
        let ghost base: Seq<RowModel> = self@;
        let ghost old_len: int = self@.len() as int;
        let mut i: u64 = 0;
        while i < w
            invariant
                min <= max,
                w == range_width(min, max),
                i <= w,
                self@.len() == old_len + i * w,
                0 <= old_len,
                forall|p: int| 0 <= p < old_len ==> self@[p] == base[p],
                forall|k: int|
                    0 <= k < i * w ==> self@[old_len + k] == #[trigger] xor_row_model(min, max, k),
                forall|p: int| old_len <= p < self@.len() ==> row_ok(#[trigger] self@[p]),
            decreases w - i,
        {
            let a: u64 = min + i;
            let mut j: u64 = 0;
            while j < w
                invariant
                    min <= max,
                    w == range_width(min, max),
                    i < w,
                    a == min + i,
                    j <= w,
                    self@.len() == old_len + i * w + j,
                    0 <= old_len,
                    forall|p: int| 0 <= p < old_len ==> self@[p] == base[p],
                    forall|k: int|
                        0 <= k < i * w + j ==> self@[old_len + k] == #[trigger] xor_row_model(
                            min,
                            max,
                            k,
                        ),
                    forall|p: int| old_len <= p < self@.len() ==> row_ok(#[trigger] self@[p]),
                decreases w - j,
            {
                let b: u64 = min + j;
                let c: u64 = a ^ b;
                let ghost prev: Seq<RowModel> = self@;
                let entry = (
                    FieldElement::from_integer(a),
                    FieldElement::from_integer(b),
                    FieldElement::from_integer(c),
                    selector_xor(),
                );
                self.rows.push(entry);
                proof {
                    assert(self@ =~= prev.push(row_model(entry)));
                    let k: int = i * w + j;
                    lemma_fundamental_div_mod_converse(k, w as int, i as int, j as int);
                    assert(xor_row_model(min, max, k) == row_model(entry));
                }
                j = j + 1;
            }
            proof {
                assert((i + 1) * w == i * w + w) by (nonlinear_arith);
            }
            i = i + 1;
        }
        proof {
            assert forall|p: int| old(self).inv() && 0 <= p < self@.len() implies row_ok(
                self@[p],
            ) by {
                if p < old_len {
                    assert(self@[p] == old(self)@[p]);
                }
            }
        }
    }

    /// For every pair `(a, b)` over the inclusive interval `[min, max]`, in
    /// lexicographic order, appends the row
    /// `(a, b, a + b, SELECTOR_ADD)` with the sum taken in the field:
    /// `(max - min + 1)²` rows in all, leaving every prior row in place.
    pub fn insert_multi_add(&mut self, min: u64, max: u64)
        requires
            min <= max,
            old(self)@.len() + range_width(min, max) * range_width(min, max) <= usize::MAX,
        ensures
            final(self)@.len() == old(self)@.len() + range_width(min, max) * range_width(
                min,
                max,
            ),
            forall|i: int| 0 <= i < old(self)@.len() ==> final(self)@[i] == old(self)@[i],
            forall|k: int|
                0 <= k < range_width(min, max) * range_width(min, max) ==> final(self)@[old(
                    self,
                )@.len() + k] == #[trigger] add_row_model(min, max, k),
            old(self).inv() ==> final(self).inv(),
    {
        proof {
            lemma_width_fits(min, max, old(self)@.len() as int);
        }
        let w: u64 = max - min + 1;
        let ghost base: Seq<RowModel> = self@;
        let ghost old_len: int = self@.len() as int;
        let mut i: u64 = 0;
        while i < w
            invariant
                min <= max,
                w == range_width(min, max),
                i <= w,
                self@.len() == old_len + i * w,
                0 <= old_len,
                forall|p: int| 0 <= p < old_len ==> self@[p] == base[p],
                forall|k: int|
                    0 <= k < i * w ==> self@[old_len + k] == #[trigger] add_row_model(min, max, k),
                forall|p: int| old_len <= p < self@.len() ==> row_ok(#[trigger] self@[p]),
            decreases w - i,
        {
            let a: u64 = min + i;
            let mut j: u64 = 0;
            while j < w
                invariant
                    min <= max,
                    w == range_width(min, max),
                    i < w,
                    a == min + i,
                    j <= w,
                    self@.len() == old_len + i * w + j,
                    0 <= old_len,
                    forall|p: int| 0 <= p < old_len ==> self@[p] == base[p],
                    forall|k: int|
                        0 <= k < i * w + j ==> self@[old_len + k] == #[trigger] add_row_model(
                            min,
                            max,
                            k,
                        ),
                    forall|p: int| old_len <= p < self@.len() ==> row_ok(#[trigger] self@[p]),
                decreases w - j,
            {
                let b: u64 = min + j;
                let fe_a = FieldElement::from_integer(a);
                let fe_b = FieldElement::from_integer(b);
                let fe_c = fe_a.add(fe_b);
                let ghost prev: Seq<RowModel> = self@;
                let entry = (fe_a, fe_b, fe_c, selector_add());
                self.rows.push(entry);
                proof {
                    assert(self@ =~= prev.push(row_model(entry)));
                    let k: int = i * w + j;
                    lemma_fundamental_div_mod_converse(k, w as int, i as int, j as int);
                    assert(add_row_model(min, max, k) == row_model(entry));
                }
                j = j + 1;
            }
            proof {
                assert((i + 1) * w == i * w + w) by (nonlinear_arith);
            }
            i = i + 1;
        }
        proof {
            assert forall|p: int| old(self).inv() && 0 <= p < self@.len() implies row_ok(
                self@[p],
            ) by {
                if p < old_len {
                    assert(self@[p] == old(self)@[p]);
                }
            }
        }
    }

    /// A table holding exactly the XOR family over `[min, max]`: `new()`
    /// followed by `insert_multi_xor(min, max)`.
    pub fn xor_table(min: u64, max: u64) -> (r: Self)
        requires
            min <= max,
            range_width(min, max) * range_width(min, max) <= usize::MAX,
        ensures
            r@.len() == range_width(min, max) * range_width(min, max),
            forall|k: int|
                0 <= k < range_width(min, max) * range_width(min, max) ==> r@[k]
                    == #[trigger] xor_row_model(min, max, k),
            r.inv(),
    {
        let mut table = Self::new();
        table.insert_multi_xor(min, max);
        table
    }

    /// Returns the result column of a row carrying the key `(a, b, d)`, and
    /// fails with [`Error::ElementNotIndexed`] exactly when the table holds
    /// no such row. Under [`LookupTable::inv`] the returned result is the
    /// unique one associated with the key; see [`lemma_result_unique`].
    pub fn lookup(&self, a: FieldElement, b: FieldElement, d: FieldElement) -> (r: Result<
        FieldElement,
        Error,
    >)
        ensures
            r is Ok <==> contains_key(self@, a@, b@, d@),
            r matches Ok(c) ==> contains_row(self@, a@, b@, c@, d@),
            r is Err ==> r == Err::<FieldElement, Error>(Error::ElementNotIndexed),
    {
        let n = self.rows.len();
        let mut i: usize = 0;
        while i < n
            invariant
                n == self@.len(),
                i <= n,
                forall|p: int| 0 <= p < i ==> !key_matches(#[trigger] self@[p], a@, b@, d@),
            decreases n - i,
        {
            let entry = self.rows[i];
            proof {
                assert(row_model(entry) == self@[i as int]);
                lemma_eq_canonical(entry.0, a);
                lemma_eq_canonical(entry.1, b);
                lemma_eq_canonical(entry.3, d);
            }
            if entry.0 == a && entry.1 == b && entry.3 == d {
                proof {
                    assert(self@[i as int] == (a@, b@, entry.2@, d@));
                }
                return Ok(entry.2);
            }
            i = i + 1;
        }
        Err(Error::ElementNotIndexed)
    }
}

/// The inclusive interval `[min, max]` is never wide enough to overflow the
/// machine when the requested block itself fits in memory.
proof fn lemma_width_fits(min: u64, max: u64, len: int)
    requires
        min <= max,
        0 <= len,
        len + range_width(min, max) * range_width(min, max) <= usize::MAX,
    ensures
        range_width(min, max) <= u64::MAX,
{
    if range_width(min, max) > u64::MAX {
        assert(range_width(min, max) == 0x1_0000_0000_0000_0000);
        assert(range_width(min, max) * range_width(min, max)
            == 0x1_0000_0000_0000_0000_0000_0000_0000_0000) by (nonlinear_arith)
            requires
                range_width(min, max) == 0x1_0000_0000_0000_0000,
        ;
        assert(usize::MAX <= u64::MAX);
        assert(false);
    }
}

/// The operand columns of block row `k` lie inside `[min, max]`.
proof fn lemma_block_coords(min: u64, max: u64, k: int)
    requires
        min <= max,
        0 <= k < range_width(min, max) * range_width(min, max),
    ensures
        0 <= k / range_width(min, max) < range_width(min, max),
        0 <= k % range_width(min, max) < range_width(min, max),
{
    let w: int = range_width(min, max);
    lemma_mod_bound(k, w);
    lemma_div_pos_is_pos(k, w);
    let q: int = k / w;
    let r: int = k % w;
    if q >= w {
        lemma_fundamental_div_mod(k, w);
        assert(k >= w * w) by (nonlinear_arith)
            requires
                k == w * q + r,
                q >= w,
                r >= 0,
                w > 0,
        ;
        assert(false);
    }
}

/// In a table whose rows all belong to supported operation families, the
/// result column is a function of the operands and the selector: two rows
/// sharing `(operand1, operand2, selector)` carry the same result. This is
/// the functional-dependency invariant that makes `lookup` well-defined.
pub proof fn lemma_result_unique(t: Seq<RowModel>, a: int, b: int, c1: int, c2: int, d: int)
    requires
        forall|i: int| 0 <= i < t.len() ==> row_ok(#[trigger] t[i]),
        contains_row(t, a, b, c1, d),
        contains_row(t, a, b, c2, d),
    ensures
        c1 == c2,
{
    let i1 = choose|i: int| 0 <= i < t.len() && #[trigger] t[i] == (a, b, c1, d);
    let i2 = choose|i: int| 0 <= i < t.len() && #[trigger] t[i] == (a, b, c2, d);
    assert(row_ok(t[i1]));
    assert(row_ok(t[i2]));
}

/// The lookup law for a table built by `xor_table(min, max)` (equally, by
/// `insert_multi_xor(min, max)` on an empty table): every operand pair
/// inside `[min, max]` has exactly the row holding its bitwise XOR under
/// `SELECTOR_XOR`, and an operand pair that leaves the interval on either
/// side has no row under that selector at all, so `lookup` misses.
pub proof fn lemma_xor_table_lookup(t: Seq<RowModel>, min: u64, max: u64, a: int, b: int)
    requires
        min <= max,
        t.len() == range_width(min, max) * range_width(min, max),
        forall|k: int| 0 <= k < t.len() ==> t[k] == #[trigger] xor_row_model(min, max, k),
    ensures
        min <= a <= max && min <= b <= max ==> contains_row(
            t,
            a,
            b,
            ((a as u64) ^ (b as u64)) as int,
            spec_selector_xor(),
        ),
        min <= a <= max && min <= b <= max ==> forall|c: int|
            contains_row(t, a, b, c, spec_selector_xor()) ==> c == ((a as u64) ^ (
            b as u64)) as int,
        !(min <= a <= max && min <= b <= max) ==> !contains_key(t, a, b, spec_selector_xor()),
{
    let w: int = range_width(min, max);
    if min <= a <= max && min <= b <= max {
        let k: int = (a - min) * w + (b - min);
        assert(0 <= k < w * w) by (nonlinear_arith)
            requires
                0 <= a - min < w,
                0 <= b - min < w,
                k == (a - min) * w + (b - min),
        ;
        lemma_fundamental_div_mod_converse(k, w, a - min, b - min);
        assert(t[k] == xor_row_model(min, max, k));
        assert(t[k] == (a, b, ((a as u64) ^ (b as u64)) as int, spec_selector_xor()));
        assert forall|c: int| contains_row(t, a, b, c, spec_selector_xor()) implies c == ((
        a as u64) ^ (b as u64)) as int by {
            let i = choose|i: int|
                0 <= i < t.len() && #[trigger] t[i] == (a, b, c, spec_selector_xor());
            lemma_block_coords(min, max, i);
            assert(t[i] == xor_row_model(min, max, i));
        }
    } else {
        if contains_key(t, a, b, spec_selector_xor()) {
            let i = choose|i: int|
                0 <= i < t.len() && key_matches(#[trigger] t[i], a, b, spec_selector_xor());
            lemma_block_coords(min, max, i);
            assert(t[i] == xor_row_model(min, max, i));
            assert(false);
        }
    }
}

} // verus!
