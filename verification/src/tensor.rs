//! Layout changes on the model's output tensor.
//!
//! The detection head writes its output attribute-major: all candidates' first
//! attribute, then all candidates' second attribute, and so on. Everything
//! downstream wants one row per candidate. Elements are never inspected here,
//! so the functions are generic over the element type.

use vstd::prelude::*;

verus! {

/// Number of candidate objects the detection head emits per inference call.
pub const OUTPUT_OBJECTS: usize = 8400;

/// The rows of a nested vector as nested sequences.
pub open spec fn rows_view<T>(v: Seq<Vec<T>>) -> Seq<Seq<T>> {
    Seq::new(v.len(), |i: int| v[i]@)
}

/// The arrangement with rows and columns exchanged. The column count is taken
/// from the first row; an arrangement without rows is its own transpose.
pub open spec fn transposed<T>(rows: Seq<Seq<T>>) -> Seq<Seq<T>> {
    if rows.len() == 0 {
        rows
    } else {
        Seq::new(rows[0].len(), |j: int| Seq::new(rows.len(), |i: int| rows[i][j]))
    }
}

/// Every row has exactly `n` entries.
pub open spec fn rectangular<T>(rows: Seq<Seq<T>>, n: nat) -> bool {
    forall|i: int| 0 <= i < rows.len() ==> (#[trigger] rows[i]).len() == n
}

/// The object-major rows of an attribute-major buffer holding `objects`
/// candidates: row `i` lists every attribute of candidate `i`. A trailing
/// partial attribute is ignored.
pub open spec fn object_major<T>(buffer: Seq<T>, objects: nat) -> Seq<Seq<T>>
    recommends
        objects > 0,
{
    let attributes = buffer.len() / objects;
    if attributes == 0 {
        Seq::empty()
    } else {
        Seq::new(objects, |i: int| Seq::new(attributes, |a: int| buffer[a * objects + i]))
    }
}

/// Transposing twice gives back the arrangement it started from, for every
/// rectangular arrangement that has at least one column (or no rows at all).
pub proof fn lemma_transposed_twice<T>(rows: Seq<Seq<T>>, n: nat)
    requires
        rectangular(rows, n),
        n > 0 || rows.len() == 0,
    ensures
        transposed(transposed(rows)) =~~= rows,
{
    if rows.len() > 0 {
        let once = transposed(rows);
        assert(once.len() == n);
        assert(once[0].len() == rows.len());
        let twice = transposed(once);
        assert(twice.len() == rows.len());
        assert forall|i: int| 0 <= i < rows.len() implies #[trigger] twice[i] =~= rows[i] by {
            assert(rows[i].len() == n);
            assert forall|j: int| 0 <= j < n implies twice[i][j] == rows[i][j] by {
                assert(once[j][i] == rows[i][j]);
            }
        }
    }
}

/// Exchanges rows and columns, moving every element. The first row decides
/// the column count, and no row may be shorter than it; surplus entries of
/// longer rows are dropped.
pub fn transpose<T>(v: Vec<Vec<T>>) -> (r: Vec<Vec<T>>)
    requires
        forall|i: int| 0 <= i < v.len() ==> (#[trigger] v[i]).len() >= v[0].len(),
    ensures
        v.len() == 0 ==> r.len() == 0,
        v.len() > 0 ==> r.len() == v[0].len(),
        forall|j: int| 0 <= j < r.len() ==> (#[trigger] r[j]).len() == v.len(),
        forall|i: int, j: int|
            0 <= i < v.len() && 0 <= j < r.len() ==> #[trigger] r[j][i] == #[trigger] v[i][j],
        rectangular(rows_view(v@), v[0].len() as nat) ==> rows_view(r@) =~~= transposed(
            rows_view(v@),
        ),
{
    let ghost orig = v;
    let mut v = v;
    let m = v.len();
    if m == 0 {
        return v;
    }
    let n = v[0].len();
    // Columns are peeled off the back, so they come out last column first.
    let mut reversed: Vec<Vec<T>> = Vec::new();
    let mut width = n;
    for i in 0..m
        invariant
            v.len() == m,
            m == orig.len(),
            n == orig[0].len(),
            forall|k: int| 0 <= k < m ==> (#[trigger] orig[k]).len() >= n,
            forall|k: int| 0 <= k < i ==> (#[trigger] v[k])@ == orig[k]@.subrange(0, n as int),
            forall|k: int| i <= k < m ==> (#[trigger] v[k])@ == orig[k]@,
    {
        v[i].truncate(n);
    }
    while width > 0
        invariant
            v.len() == m,
            m == orig.len(),
            n == orig[0].len(),
            width <= n,
            forall|k: int| 0 <= k < m ==> (#[trigger] orig[k]).len() >= n,
            forall|k: int| 0 <= k < m ==> (#[trigger] v[k])@ == orig[k]@.subrange(0, width as int),
            reversed.len() == n - width,
            forall|c: int| 0 <= c < reversed.len() ==> (#[trigger] reversed[c]).len() == m,
            forall|c: int, k: int|
                0 <= c < reversed.len() && 0 <= k < m ==> #[trigger] reversed[c][k]
                    == orig[k][n - 1 - c],
        decreases width,
    {
        let mut column: Vec<T> = Vec::new();
        for i in 0..m
            invariant
                v.len() == m,
                m == orig.len(),
                0 < width <= n,
                forall|k: int| 0 <= k < m ==> (#[trigger] orig[k]).len() >= n,
                forall|k: int| 0 <= k < i ==> (#[trigger] v[k])@ == orig[k]@.subrange(
                    0,
                    width - 1,
                ),
                forall|k: int| i <= k < m ==> (#[trigger] v[k])@ == orig[k]@.subrange(
                    0,
                    width as int,
                ),
                column.len() == i,
                forall|k: int| 0 <= k < i ==> #[trigger] column[k] == orig[k][width - 1],
        {
            let cell = v[i].pop();
            match cell {
                Some(x) => column.push(x),
                None => {},
            }
        }
        reversed.push(column);
        width = width - 1;
    }
    let mut r: Vec<Vec<T>> = Vec::new();
    while reversed.len() > 0
        invariant
            reversed.len() + r.len() == n,
            m == orig.len(),
            n == orig[0].len(),
            forall|c: int| 0 <= c < reversed.len() ==> (#[trigger] reversed[c]).len() == m,
            forall|c: int, k: int|
                0 <= c < reversed.len() && 0 <= k < m ==> #[trigger] reversed[c][k]
                    == orig[k][n - 1 - c],
            forall|j: int| 0 <= j < r.len() ==> (#[trigger] r[j]).len() == m,
            forall|j: int, k: int|
                0 <= j < r.len() && 0 <= k < m ==> #[trigger] r[j][k] == orig[k][j],
        decreases reversed.len(),
    {
        let column = reversed.pop();
        match column {
            Some(c) => r.push(c),
            None => {},
        }
    }
    proof {
        if rectangular(rows_view(orig@), n as nat) {
            let want = transposed(rows_view(orig@));
            assert(rows_view(orig@)[0] == orig[0]@);
            assert forall|j: int| 0 <= j < n implies #[trigger] rows_view(r@)[j] =~= want[j] by {
                assert(r[j].len() == m);
            }
        }
    }
    r
}

/// Reshapes the flat attribute-major output buffer into one row per candidate
/// object. Row `i` belongs to candidate `i`; nothing is filtered or reordered.
pub fn process_output_buffer_to_tensor<T: Copy>(buffer: &[T]) -> (r: Vec<Vec<T>>)
    ensures
        rows_view(r@) =~~= object_major(buffer@, OUTPUT_OBJECTS as nat),
{
    let attributes = buffer.len() / OUTPUT_OBJECTS;
    let mut columns: Vec<Vec<T>> = Vec::new();
    for a in 0..attributes
        invariant
            attributes == buffer.len() / OUTPUT_OBJECTS,
            columns.len() == a,
            forall|k: int| 0 <= k < a ==> (#[trigger] columns[k]).len() == OUTPUT_OBJECTS,
            forall|k: int, i: int|
                0 <= k < a && 0 <= i < OUTPUT_OBJECTS ==> #[trigger] columns[k][i] == buffer[k
                    * OUTPUT_OBJECTS + i],
    {
        let mut column: Vec<T> = Vec::new();
        for i in 0..OUTPUT_OBJECTS
            invariant
                a < attributes,
                attributes == buffer.len() / OUTPUT_OBJECTS,
                column.len() == i,
                forall|k: int| 0 <= k < i ==> #[trigger] column[k] == buffer[a * OUTPUT_OBJECTS + k],
        {
            assert(a * OUTPUT_OBJECTS + i < buffer.len()) by (nonlinear_arith)
                requires
                    a < attributes,
                    attributes == buffer.len() / OUTPUT_OBJECTS,
                    i < OUTPUT_OBJECTS,
                    OUTPUT_OBJECTS == 8400,
            ;
            column.push(buffer[a * OUTPUT_OBJECTS + i]);
        }
        columns.push(column);
    }
    let r = transpose(columns);
    proof {
        let want = object_major(buffer@, OUTPUT_OBJECTS as nat);
        if attributes > 0 {
            assert(r.len() == OUTPUT_OBJECTS);
            assert forall|i: int| 0 <= i < OUTPUT_OBJECTS implies #[trigger] rows_view(r@)[i]
                =~= want[i] by {
                assert(r[i].len() == attributes);
                assert forall|k: int| 0 <= k < attributes implies r[i][k] == want[i][k] by {
                    assert(r[i][k] == columns[k][i]);
                }
            }
        }
    }
    r
}

} // verus!
