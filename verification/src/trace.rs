//! Trace-grid utilities: padding a trace to a power-of-two number of
//! rows, and transposing a row-major trace into columns.

use vstd::prelude::*;

verus! {

/// Whether `n` is a power of two.
pub open spec fn is_pow2(n: int) -> bool
    decreases n,
{
    if n <= 0 {
        false
    } else if n == 1 {
        true
    } else {
        n % 2 == 0 && is_pow2(n / 2)
    }
}

/// The number of rows a trace may hold before padding; every real
/// trace is far below this, and it keeps the doubled padding target
/// within `usize`.
pub const MAX_TRACE_LENGTH: usize = 0x1000_0000;

/// The least height any padded trace is brought up to.
pub const MIN_TRACE_LENGTH: usize = 8;

/// Two powers of two within a factor of two of each other are equal.
pub proof fn lemma_pow2_unique(a: int, b: int)
    requires
        is_pow2(a),
        is_pow2(b),
        a <= b < 2 * a,
    ensures
        a == b,
    decreases a,
{
    if a == 1 {
    } else {
        lemma_pow2_unique(a / 2, b / 2);
    }
}

/// The least power of two that is at least `n` (and at least 1).
pub fn next_pow2(n: usize) -> (r: usize)
    requires
        n <= MAX_TRACE_LENGTH,
    ensures
        is_pow2(r as int),
        r >= n,
        n >= 1 ==> r < 2 * n,
        n <= 1 ==> r == 1,
        is_pow2(n as int) ==> r == n,
{
    let mut p: usize = 1;
    while p < n
        invariant
            is_pow2(p as int),
            n >= 1 ==> p < 2 * n,
            n <= 1 ==> p == 1,
            n <= MAX_TRACE_LENGTH,
        decreases 2 * n - p,
    {
        p = p * 2;
    }
    proof {
        if is_pow2(n as int) {
            lemma_pow2_unique(n as int, p as int);
        }
    }
    p
}

/// Pads `trace` with copies of `default` up to the next power-of-two
/// length; a trace whose length is already a power of two comes back
/// unchanged.
pub fn pad_trace<Row: Copy>(trace: Vec<Row>, default: Row) -> (r: Vec<Row>)
    requires
        trace@.len() <= MAX_TRACE_LENGTH,
    ensures
        is_pow2(r@.len() as int),
        r@.len() >= trace@.len(),
        trace@.len() >= 1 ==> r@.len() < 2 * trace@.len(),
        r@.subrange(0, trace@.len() as int) == trace@,
        forall|k: int| trace@.len() <= k < r@.len() ==> r@[k] == default,
        is_pow2(trace@.len() as int) ==> r@ == trace@,
        trace@.len() == 0 ==> r@.len() == 1,
{
    let target = next_pow2(trace.len());
    let mut out = trace;
    let ghost orig = out@;
    while out.len() < target
        invariant
            out@.len() <= target,
            out@.subrange(0, orig.len() as int) == orig,
            out@.len() >= orig.len(),
            forall|k: int| orig.len() <= k < out@.len() ==> out@[k] == default,
        decreases target - out.len(),
    {
        out.push(default);
        proof {
            assert(out@.subrange(0, orig.len() as int) =~= orig);
        }
    }
    proof {
        if is_pow2(orig.len() as int) {
            assert(out@ =~= orig);
        }
    }
    out
}

/// Turns a row-major trace into a column-major one: entry `[c][r]` of
/// the result is entry `[r][c]` of the input. Every row must have the
/// same width.
pub fn transpose_trace(rows: &Vec<Vec<u64>>, width: usize) -> (r: Vec<Vec<u64>>)
    requires
        forall|i: int| 0 <= i < rows@.len() ==> (#[trigger] rows@[i])@.len() == width,
    ensures
        r@.len() == width,
        forall|c: int| 0 <= c < width ==> (#[trigger] r@[c])@.len() == rows@.len(),
        forall|c: int, i: int|
            0 <= c < width && 0 <= i < rows@.len() ==> #[trigger] (r@[c])@[i] == (rows@[i])@[c],
{
    let mut cols: Vec<Vec<u64>> = Vec::new();
    let mut c: usize = 0;
    while c < width
        invariant
            c <= width,
            cols@.len() == c,
            forall|i: int| 0 <= i < rows@.len() ==> (#[trigger] rows@[i])@.len() == width,
            forall|k: int| 0 <= k < c ==> (#[trigger] cols@[k])@.len() == rows@.len(),
            forall|k: int, i: int|
                0 <= k < c && 0 <= i < rows@.len() ==> #[trigger] (cols@[k])@[i] == (rows@[i])@[k],
        decreases width - c,
    {
        let mut col: Vec<u64> = Vec::new();
        let mut i: usize = 0;
        while i < rows.len()
            invariant
                i <= rows@.len(),
                col@.len() == i,
                c < width,
                forall|j: int| 0 <= j < rows@.len() ==> (#[trigger] rows@[j])@.len() == width,
                forall|j: int| 0 <= j < i ==> col@[j] == (#[trigger] rows@[j])@[c as int],
            decreases rows@.len() - i,
        {
            col.push(rows[i][c]);
            i = i + 1;
        }
        cols.push(col);
        c = c + 1;
    }
    cols
}

} // verus!
