//! What the library decides when its records are read from Windows metadata
//! files: where the TypeDef rows of each file stand among those of all the
//! files, and the attributes whose arguments are decoded.
//!
//! The reads themselves go through the `windows_metadata` crate, whose
//! readers panic on malformed tables, strings and blobs; they stand outside
//! the library, which receives what they read as plain records.

use vstd::prelude::*;

verus! {

/// The rows counted in `counts[0..k]`.
pub open spec fn rows_before(counts: Seq<usize>, k: int) -> int
    decreases k,
{
    if k <= 0 {
        0
    } else {
        rows_before(counts, k - 1) + counts[k - 1]
    }
}

/// Where the TypeDef rows of each file start among all of them.
pub open spec fn offsets_ok(offsets: Seq<usize>) -> bool {
    &&& offsets.len() >= 1
    &&& offsets[0] == 0
    &&& forall|f: int| 0 <= f < offsets.len() - 1 ==> #[trigger] offsets[f] <= offsets[f + 1]
}

/// Where the rows of each file start, given how many TypeDef rows each file
/// has, in file order, followed by the number of all rows: the running sums of
/// the counts. `None` where the number of all rows does not fit a `usize`.
pub fn build_offsets(counts: &Vec<usize>) -> (r: Option<Vec<usize>>)
    ensures
        r is Some <==> rows_before(counts@, counts@.len() as int) <= usize::MAX,
        r matches Some(o) ==> {
            &&& o@.len() == counts@.len() + 1
            &&& offsets_ok(o@)
            &&& forall|f: int| 0 <= f <= counts@.len() ==> #[trigger] o@[f] == rows_before(counts@, f)
        },
{
    let mut offsets: Vec<usize> = Vec::new();
    offsets.push(0);
    let mut total: usize = 0;
    let mut f: usize = 0;
    while f < counts.len()
        invariant
            0 <= f <= counts@.len(),
            offsets@.len() == f + 1,
            total == rows_before(counts@, f as int),
            offsets_ok(offsets@),
            forall|g: int| 0 <= g <= f ==> #[trigger] offsets@[g] == rows_before(counts@, g),
        decreases counts@.len() - f,
    {
        if total > usize::MAX - counts[f] {
            proof {
                lemma_rows_exceed(counts@, f as int + 1, counts@.len() as int);
            }
            return None;
        }
        total = total + counts[f];
        offsets.push(total);
        f += 1;
    }
    Some(offsets)
}

proof fn lemma_rows_exceed(counts: Seq<usize>, k: int, m: int)
    requires
        0 <= k <= m <= counts.len(),
    ensures
        rows_before(counts, k) <= rows_before(counts, m),
    decreases m - k,
{
    if k < m {
        lemma_rows_exceed(counts, k, m - 1);
    }
}

/// The position of row `row` of the file at `file` among all TypeDef rows,
/// where the file is one of those read and the row lies within its table.
pub open spec fn row_position(offsets: Seq<usize>, file: usize, row: usize) -> Option<usize> {
    if file + 1 < offsets.len() && row < offsets[file + 1] - offsets[file as int] {
        Some((offsets[file as int] + row) as usize)
    } else {
        None
    }
}

proof fn lemma_offsets_below_last(offsets: Seq<usize>, f: int)
    requires
        offsets_ok(offsets),
        0 <= f < offsets.len(),
    ensures
        offsets[f] <= offsets.last(),
    decreases offsets.len() - f,
{
    if f < offsets.len() - 1 {
        assert(offsets[f] <= offsets[f + 1]);
        lemma_offsets_below_last(offsets, f + 1);
    }
}

/// The position of row `row` of the file at `file` (see `row_position`).
pub fn position_of_row(offsets: &Vec<usize>, file: usize, row: usize) -> (r: Option<usize>)
    requires
        offsets_ok(offsets@),
    ensures
        r == row_position(offsets@, file, row),
        r matches Some(p) ==> p < offsets@.last(),
{
    if file >= offsets.len() - 1 {
        return None;
    }
    let start = offsets[file];
    let end = offsets[file + 1];
    assert(start <= end);
    if row >= end - start {
        return None;
    }
    proof {
        lemma_offsets_below_last(offsets@, file as int + 1);
    }
    Some(start + row)
}

/// The library reads the arguments of attributes with this name.
pub open spec fn args_read(name: Seq<char>) -> bool {
    name == "NativeArrayInfoAttribute"@ || name == "MemorySizeAttribute"@ || name
        == "AssociatedEnumAttribute"@
}

/// Whether the library reads the arguments of attributes with this name.
pub fn is_args_read(name: &String) -> (r: bool)
    ensures
        r == args_read(name@),
{
    crate::attributes::name_is(name, "NativeArrayInfoAttribute") || crate::attributes::name_is(
        name,
        "MemorySizeAttribute",
    ) || crate::attributes::name_is(name, "AssociatedEnumAttribute")
}

} // verus!
