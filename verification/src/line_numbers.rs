//! Relative line numbers: each shown row is numbered by its distance from
//! the cursor's row; the cursor's own row keeps its absolute number.
use vstd::prelude::*;

verus! {

/// What a relative number reads of a display row: whether it starts a
/// buffer row, and whether it continues a wrapped one.
#[derive(Clone, Copy, PartialEq, Eq, Structural, Debug)]
pub struct RowKind {
    /// Whether the row starts a buffer row.
    pub buffer_row: bool,
    /// Whether the row is the continuation of a wrapped buffer row.
    pub wrapped_row: bool,
}

/// Whether a row gets a number: it starts a buffer row, or continues a
/// wrapped one when wrapped rows are counted.
pub open spec fn numbered(k: RowKind, count_wrapped: bool) -> bool {
    k.buffer_row || (count_wrapped && k.wrapped_row)
}

/// How many of the first `n` rows get a number.
pub open spec fn numbered_before(kinds: Seq<RowKind>, count_wrapped: bool, n: int) -> int
    decreases n,
{
    if n <= 0 {
        0
    } else {
        numbered_before(kinds, count_wrapped, n - 1) + if numbered(kinds[n - 1], count_wrapped) {
            1int
        } else {
            0int
        }
    }
}

/// The magnitude of `v`, as `i64::unsigned_abs` gives it.
pub open spec fn abs_of(v: int) -> int {
    if v < 0 {
        -v
    } else {
        v
    }
}

/// The relative numbers of the first `n` of the rows shown from `start`:
/// the `j`-th numbered row is `offset + j` rows from the cursor, and gets
/// that distance (as a `u32`) unless it is zero.
pub open spec fn relative_numbers(
    kinds: Seq<RowKind>,
    start: u32,
    offset: int,
    count_wrapped: bool,
    n: int,
) -> Seq<(u32, u32)>
    decreases n,
{
    if n <= 0 {
        Seq::empty()
    } else {
        let rest = relative_numbers(kinds, start, offset, count_wrapped, n - 1);
        if numbered(kinds[n - 1], count_wrapped) {
            let d = (abs_of(offset + numbered_before(kinds, count_wrapped, n - 1)) as u64) as u32;
            if d != 0 {
                rest.push(((start + n - 1) as u32, d))
            } else {
                rest
            }
        } else {
            rest
        }
    }
}

/// The relative line numbers of the rows shown from display row `start`,
/// one `kinds` entry per row: `first_row` and `cursor_row` are the rows of
/// the first shown row and of the cursor, counted in wrapped rows when
/// wrapped rows are counted and in unwrapped ones otherwise. Rows at zero
/// distance are left out, so that they keep their absolute numbers.
pub fn relative_line_numbers(
    kinds: &Vec<RowKind>,
    start: u32,
    first_row: u32,
    cursor_row: u32,
    count_wrapped: bool,
) -> (r: Vec<(u32, u32)>)
    requires
        start + kinds@.len() <= u32::MAX,
    ensures
        r@ == relative_numbers(kinds@, start, first_row - cursor_row, count_wrapped, kinds@.len() as int),
{
    let offset: i64 = first_row as i64 - cursor_row as i64;
    let mut out: Vec<(u32, u32)> = Vec::new();
    let mut i: usize = 0;
    let mut j: u64 = 0;
    while i < kinds.len()
        invariant
            i <= kinds@.len(),
            start + kinds@.len() <= u32::MAX,
            offset == first_row - cursor_row,
            j == numbered_before(kinds@, count_wrapped, i as int),
            j <= i,
            out@ == relative_numbers(kinds@, start, offset as int, count_wrapped, i as int),
        decreases kinds@.len() - i,
    {
        let k = kinds[i];
        if k.buffer_row || (count_wrapped && k.wrapped_row) {
            let v: i64 = offset + j as i64;
            let a: u64 = if v < 0 {
                (-v) as u64
            } else {
                v as u64
            };
            let d = a as u32;
            if d != 0 {
                out.push((start + i as u32, d));
            }
            j = j + 1;
        }
        i = i + 1;
    }
    out
}

} // verus!
