//! Dense linear-algebra kernel over fixed-point scalars.
//!
//! Vectors are `Vec<i64>` and matrices are row-major `Vec<Vec<i64>>` of
//! fixed-point scalars (see [`crate::fixed`]).  The kernel offers exactly
//! what the solver needs: dot products, matrix multiply and transpose, a
//! diagonal-matrix inverse, a vector norm, and a warm-started
//! conjugate-gradient solver for symmetric positive-semi-definite systems.

use vstd::prelude::*;
use crate::fixed::{
    clip, fx_add, fx_add_s, fx_div, fx_div_s, fx_mul, fx_mul_s, fx_neg, fx_sub, fx_sub_s,
    in_range, isqrt_u128, tdiv, LIM, SCALE,
};

verus! {

/// Largest vector length the kernel accepts; keeps 128-bit accumulators
/// exact.
pub const MAX_DIM: usize = 65536;

/// The mathematical contents of a fixed-point vector.
pub open spec fn ints(v: Seq<i64>) -> Seq<int> {
    Seq::new(v.len(), |i: int| v[i] as int)
}

/// The mathematical contents of a row-major fixed-point matrix.
pub open spec fn mat_ints(m: Seq<Vec<i64>>) -> Seq<Seq<int>> {
    Seq::new(m.len(), |i: int| ints(m[i]@))
}

/// All entries of a vector lie in the representable scalar range.
pub open spec fn vec_in_range(v: Seq<i64>) -> bool {
    forall|i: int| 0 <= i < v.len() ==> in_range(#[trigger] v[i] as int)
}

/// Well-formed `rows x cols` matrix: row count, row lengths, entry ranges.
pub open spec fn mat_wf(m: Seq<Vec<i64>>, rows: int, cols: int) -> bool {
    &&& m.len() == rows
    &&& forall|i: int|
        0 <= i < rows ==> (#[trigger] m[i])@.len() == cols && vec_in_range(m[i]@)
}

/// Exact (unscaled) dot product of two equal-length vectors.
pub open spec fn dot_raw(a: Seq<int>, b: Seq<int>) -> int
    recommends
        a.len() == b.len(),
    decreases a.len(),
{
    if a.len() == 0 {
        0
    } else {
        dot_raw(a.drop_last(), b.drop_last()) + a.last() * b.last()
    }
}

/// Fixed-point dot product: exact sum of products, truncated by `SCALE`,
/// saturated into range.
pub open spec fn fx_dot(a: Seq<int>, b: Seq<int>) -> int {
    clip(tdiv(dot_raw(a, b), SCALE as int))
}

/// Column `j` of a matrix.
pub open spec fn col_s(m: Seq<Seq<int>>, j: int) -> Seq<int> {
    Seq::new(m.len(), |k: int| m[k][j])
}

/// Matrix-vector product, row by row.
pub open spec fn matvec_s(m: Seq<Seq<int>>, v: Seq<int>) -> Seq<int> {
    Seq::new(m.len(), |i: int| fx_dot(m[i], v))
}

/// Entry `(i, j)` of the matrix product `a * b`.
pub open spec fn matmul_entry(a: Seq<Seq<int>>, b: Seq<Seq<int>>, i: int, j: int) -> int {
    fx_dot(a[i], col_s(b, j))
}

/// Elementwise difference of two vectors.
pub open spec fn sub_v(a: Seq<int>, b: Seq<int>) -> Seq<int> {
    Seq::new(a.len(), |i: int| fx_sub_s(a[i], b[i]))
}

/// `x + alpha * d`, elementwise.
pub open spec fn add_scaled_v(x: Seq<int>, alpha: int, d: Seq<int>) -> Seq<int> {
    Seq::new(x.len(), |i: int| fx_add_s(x[i], fx_mul_s(alpha, d[i])))
}

/// `x - alpha * d`, elementwise.
pub open spec fn sub_scaled_v(x: Seq<int>, alpha: int, d: Seq<int>) -> Seq<int> {
    Seq::new(x.len(), |i: int| fx_sub_s(x[i], fx_mul_s(alpha, d[i])))
}

/// Truncate-and-saturate a wide accumulator by `SCALE`.
fn scale_down(p: i128) -> (r: i64)
    requires
        i128::MIN < p,
    ensures
        r as int == clip(tdiv(p as int, SCALE as int)),
        in_range(r as int),
{
    let neg: bool = p < 0;
    let mag: u128 = if neg {
        (-p) as u128
    } else {
        p as u128
    };
    let q: u128 = mag / (SCALE as u128);
    let qc: u128 = if q > (LIM as u128) {
        LIM as u128
    } else {
        q
    };
    if neg {
        -(qc as i64)
    } else {
        qc as i64
    }
}

/// The all-zero vector of a given length.
pub fn zeros(n: usize) -> (r: Vec<i64>)
    ensures
        r@.len() == n,
        forall|i: int| 0 <= i < n ==> r@[i] == 0i64,
        vec_in_range(r@),
{
    let mut r: Vec<i64> = Vec::new();
    let mut i: usize = 0;
    while i < n
        invariant
            i <= n,
            r@.len() == i,
            forall|k: int| 0 <= k < i ==> r@[k] == 0i64,
        decreases n - i,
    {
        r.push(0);
        i += 1;
    }
    r
}

/// Fixed-point dot product of two vectors.
pub fn dot(a: &Vec<i64>, b: &Vec<i64>) -> (r: i64)
    requires
        a@.len() == b@.len(),
        a@.len() <= MAX_DIM,
        vec_in_range(a@),
        vec_in_range(b@),
    ensures
        r as int == fx_dot(ints(a@), ints(b@)),
        in_range(r as int),
{
    let n = a.len();
    let mut acc: i128 = 0;
    let mut i: usize = 0;
    while i < n
        invariant
            i <= n,
            n == a@.len(),
            n == b@.len(),
            n <= MAX_DIM,
            vec_in_range(a@),
            vec_in_range(b@),
            acc as int == dot_raw(ints(a@).take(i as int), ints(b@).take(i as int)),
            // 19342813113834066795298816 == LIM * LIM
            -((i as int) * 19342813113834066795298816) <= acc as int <= (i as int)
                * 19342813113834066795298816,
        decreases n - i,
    {
        proof {
            assert(-19342813113834066795298816 <= (a@[i as int] as int) * (b@[i as int] as int)
                <= 19342813113834066795298816) by (nonlinear_arith)
                requires
                    -4398046511104 <= a@[i as int] as int <= 4398046511104,
                    -4398046511104 <= b@[i as int] as int <= 4398046511104,
            ;
        }
        let term: i128 = (a[i] as i128) * (b[i] as i128);
        acc = acc + term;
        proof {
            assert(ints(a@).take(i + 1).drop_last() =~= ints(a@).take(i as int));
            assert(ints(b@).take(i + 1).drop_last() =~= ints(b@).take(i as int));
            assert(ints(a@).take(i + 1).last() == a@[i as int] as int);
            assert(ints(b@).take(i + 1).last() == b@[i as int] as int);
        }
        i += 1;
    }
    proof {
        assert(ints(a@).take(n as int) =~= ints(a@));
        assert(ints(b@).take(n as int) =~= ints(b@));
    }
    scale_down(acc)
}

/// A copy of a vector.
pub fn vec_copy(v: &Vec<i64>) -> (r: Vec<i64>)
    ensures
        r@ == v@,
{
    let n = v.len();
    let mut r: Vec<i64> = Vec::new();
    let mut i: usize = 0;
    while i < n
        invariant
            i <= n,
            n == v@.len(),
            r@.len() == i,
            forall|k: int| 0 <= k < i ==> r@[k] == v@[k],
        decreases n - i,
    {
        r.push(v[i]);
        i += 1;
    }
    proof {
        assert(r@ =~= v@);
    }
    r
}

/// Elementwise vector difference.
pub fn vec_sub(a: &Vec<i64>, b: &Vec<i64>) -> (r: Vec<i64>)
    requires
        a@.len() == b@.len(),
        vec_in_range(a@),
        vec_in_range(b@),
    ensures
        r@.len() == a@.len(),
        vec_in_range(r@),
        ints(r@) == sub_v(ints(a@), ints(b@)),
{
    let n = a.len();
    let mut r: Vec<i64> = Vec::new();
    let mut i: usize = 0;
    while i < n
        invariant
            i <= n,
            n == a@.len(),
            n == b@.len(),
            vec_in_range(a@),
            vec_in_range(b@),
            r@.len() == i,
            forall|k: int|
                0 <= k < i ==> (#[trigger] r@[k]) as int == fx_sub_s(a@[k] as int, b@[k] as int)
                    && in_range(r@[k] as int),
        decreases n - i,
    {
        r.push(fx_sub(a[i], b[i]));
        i += 1;
    }
    proof {
        assert(ints(r@) =~= sub_v(ints(a@), ints(b@)));
    }
    r
}

/// `x + alpha * d`, elementwise.
pub fn add_scaled(x: &Vec<i64>, alpha: i64, d: &Vec<i64>) -> (r: Vec<i64>)
    requires
        x@.len() == d@.len(),
        vec_in_range(x@),
        vec_in_range(d@),
        in_range(alpha as int),
    ensures
        r@.len() == x@.len(),
        vec_in_range(r@),
        ints(r@) == add_scaled_v(ints(x@), alpha as int, ints(d@)),
{
    let n = x.len();
    let mut r: Vec<i64> = Vec::new();
    let mut i: usize = 0;
    while i < n
        invariant
            i <= n,
            n == x@.len(),
            n == d@.len(),
            vec_in_range(x@),
            vec_in_range(d@),
            in_range(alpha as int),
            r@.len() == i,
            forall|k: int|
                0 <= k < i ==> (#[trigger] r@[k]) as int == fx_add_s(
                    x@[k] as int,
                    fx_mul_s(alpha as int, d@[k] as int),
                ) && in_range(r@[k] as int),
        decreases n - i,
    {
        r.push(fx_add(x[i], fx_mul(alpha, d[i])));
        i += 1;
    }
    proof {
        assert(ints(r@) =~= add_scaled_v(ints(x@), alpha as int, ints(d@)));
    }
    r
}

/// `x - alpha * d`, elementwise.
pub fn sub_scaled(x: &Vec<i64>, alpha: i64, d: &Vec<i64>) -> (r: Vec<i64>)
    requires
        x@.len() == d@.len(),
        vec_in_range(x@),
        vec_in_range(d@),
        in_range(alpha as int),
    ensures
        r@.len() == x@.len(),
        vec_in_range(r@),
        ints(r@) == sub_scaled_v(ints(x@), alpha as int, ints(d@)),
{
    let n = x.len();
    let mut r: Vec<i64> = Vec::new();
    let mut i: usize = 0;
    while i < n
        invariant
            i <= n,
            n == x@.len(),
            n == d@.len(),
            vec_in_range(x@),
            vec_in_range(d@),
            in_range(alpha as int),
            r@.len() == i,
            forall|k: int|
                0 <= k < i ==> (#[trigger] r@[k]) as int == fx_sub_s(
                    x@[k] as int,
                    fx_mul_s(alpha as int, d@[k] as int),
                ) && in_range(r@[k] as int),
        decreases n - i,
    {
        r.push(fx_sub(x[i], fx_mul(alpha, d[i])));
        i += 1;
    }
    proof {
        assert(ints(r@) =~= sub_scaled_v(ints(x@), alpha as int, ints(d@)));
    }
    r
}

/// Matrix-vector product, one dot product per row.
pub fn mat_vec(m: &Vec<Vec<i64>>, v: &Vec<i64>) -> (r: Vec<i64>)
    requires
        mat_wf(m@, m@.len() as int, v@.len() as int),
        v@.len() <= MAX_DIM,
        vec_in_range(v@),
    ensures
        r@.len() == m@.len(),
        vec_in_range(r@),
        ints(r@) == matvec_s(mat_ints(m@), ints(v@)),
{
    let n = m.len();
    let mut r: Vec<i64> = Vec::new();
    let mut i: usize = 0;
    while i < n
        invariant
            i <= n,
            n == m@.len(),
            mat_wf(m@, m@.len() as int, v@.len() as int),
            v@.len() <= MAX_DIM,
            vec_in_range(v@),
            r@.len() == i,
            forall|k: int|
                0 <= k < i ==> (#[trigger] r@[k]) as int == fx_dot(mat_ints(m@)[k], ints(v@))
                    && in_range(r@[k] as int),
        decreases n - i,
    {
        r.push(dot(&m[i], v));
        i += 1;
    }
    proof {
        assert(ints(r@) =~= matvec_s(mat_ints(m@), ints(v@)));
    }
    r
}

/// Matrix transpose; `cols` is the column count of `m` (needed when `m` has
/// no rows).
pub fn transpose(m: &Vec<Vec<i64>>, cols: usize) -> (r: Vec<Vec<i64>>)
    requires
        mat_wf(m@, m@.len() as int, cols as int),
    ensures
        mat_wf(r@, cols as int, m@.len() as int),
        forall|j: int, k: int|
            0 <= j < cols && 0 <= k < m@.len() ==> (#[trigger] r@[j]@[k]) == m@[k]@[j],
{
    let rows = m.len();
    let mut r: Vec<Vec<i64>> = Vec::new();
    let mut j: usize = 0;
    while j < cols
        invariant
            j <= cols,
            rows == m@.len(),
            mat_wf(m@, m@.len() as int, cols as int),
            r@.len() == j,
            forall|p: int|
                0 <= p < j ==> (#[trigger] r@[p])@.len() == rows && vec_in_range(r@[p]@),
            forall|p: int, k: int|
                0 <= p < j && 0 <= k < rows ==> (#[trigger] r@[p]@[k]) == m@[k]@[p],
        decreases cols - j,
    {
        let mut row: Vec<i64> = Vec::new();
        let mut k: usize = 0;
        while k < rows
            invariant
                k <= rows,
                j < cols,
                rows == m@.len(),
                mat_wf(m@, m@.len() as int, cols as int),
                row@.len() == k,
                forall|q: int| 0 <= q < k ==> (#[trigger] row@[q]) == m@[q]@[j as int],
            decreases rows - k,
        {
            row.push(m[k][j]);
            k += 1;
        }
        r.push(row);
        j += 1;
    }
    r
}

/// Matrix product `a * b`; `b_cols` is the column count of `b`.
pub fn mat_mul(a: &Vec<Vec<i64>>, b: &Vec<Vec<i64>>, b_cols: usize) -> (r: Vec<Vec<i64>>)
    requires
        mat_wf(a@, a@.len() as int, b@.len() as int),
        mat_wf(b@, b@.len() as int, b_cols as int),
        b@.len() <= MAX_DIM,
    ensures
        mat_wf(r@, a@.len() as int, b_cols as int),
        forall|i: int, j: int|
            0 <= i < a@.len() && 0 <= j < b_cols ==> (#[trigger] r@[i]@[j]) as int == matmul_entry(
                mat_ints(a@),
                mat_ints(b@),
                i,
                j,
            ),
{
    let bt = transpose(b, b_cols);
    proof {
        assert forall|j: int| 0 <= j < b_cols implies ints(bt@[j]@) =~= col_s(
            mat_ints(b@),
            j,
        ) by {
            assert(forall|k: int| 0 <= k < b@.len() ==> (#[trigger] bt@[j]@[k]) == b@[k]@[j]);
        }
    }
    let rows = a.len();
    let mut r: Vec<Vec<i64>> = Vec::new();
    let mut i: usize = 0;
    while i < rows
        invariant
            i <= rows,
            rows == a@.len(),
            mat_wf(a@, a@.len() as int, b@.len() as int),
            mat_wf(b@, b@.len() as int, b_cols as int),
            mat_wf(bt@, b_cols as int, b@.len() as int),
            b@.len() <= MAX_DIM,
            forall|j: int| 0 <= j < b_cols ==> ints((#[trigger] bt@[j])@) == col_s(mat_ints(b@), j),
            r@.len() == i,
            forall|p: int|
                0 <= p < i ==> (#[trigger] r@[p])@.len() == b_cols && vec_in_range(r@[p]@),
            forall|p: int, j: int|
                0 <= p < i && 0 <= j < b_cols ==> (#[trigger] r@[p]@[j]) as int == matmul_entry(
                    mat_ints(a@),
                    mat_ints(b@),
                    p,
                    j,
                ),
        decreases rows - i,
    {
        let mut row: Vec<i64> = Vec::new();
        let mut j: usize = 0;
        while j < b_cols
            invariant
                j <= b_cols,
                i < rows,
                rows == a@.len(),
                mat_wf(a@, a@.len() as int, b@.len() as int),
                mat_wf(b@, b@.len() as int, b_cols as int),
                mat_wf(bt@, b_cols as int, b@.len() as int),
                b@.len() <= MAX_DIM,
                forall|q: int|
                    0 <= q < b_cols ==> ints((#[trigger] bt@[q])@) == col_s(mat_ints(b@), q),
                row@.len() == j,
                forall|q: int|
                    0 <= q < j ==> (#[trigger] row@[q]) as int == matmul_entry(
                        mat_ints(a@),
                        mat_ints(b@),
                        i as int,
                        q,
                    ) && in_range(row@[q] as int),
            decreases b_cols - j,
        {
            row.push(dot(&a[i], &bt[j]));
            j += 1;
        }
        r.push(row);
        i += 1;
    }
    r
}

/// Reciprocal of each entry: the inverse of the diagonal matrix carrying
/// `d`, computed entrywise as the mass-matrix fast path.
pub fn diag_inverse(d: &Vec<i64>) -> (r: Vec<i64>)
    requires
        vec_in_range(d@),
        forall|i: int| 0 <= i < d@.len() ==> (#[trigger] d@[i]) != 0i64,
    ensures
        r@.len() == d@.len(),
        vec_in_range(r@),
        forall|i: int|
            0 <= i < d@.len() ==> (#[trigger] r@[i]) as int == fx_div_s(SCALE as int, d@[i] as int),
{
    let n = d.len();
    let mut r: Vec<i64> = Vec::new();
    let mut i: usize = 0;
    while i < n
        invariant
            i <= n,
            n == d@.len(),
            vec_in_range(d@),
            forall|k: int| 0 <= k < n ==> (#[trigger] d@[k]) != 0i64,
            r@.len() == i,
            forall|k: int|
                0 <= k < i ==> (#[trigger] r@[k]) as int == fx_div_s(SCALE as int, d@[k] as int)
                    && in_range(r@[k] as int),
        decreases n - i,
    {
        r.push(fx_div(SCALE, d[i]));
        i += 1;
    }
    r
}

/// Elementwise negation of a vector.
pub fn vec_neg(a: &Vec<i64>) -> (r: Vec<i64>)
    requires
        vec_in_range(a@),
    ensures
        r@.len() == a@.len(),
        vec_in_range(r@),
        forall|i: int| 0 <= i < a@.len() ==> (#[trigger] r@[i]) as int == -(a@[i] as int),
{
    let n = a.len();
    let mut r: Vec<i64> = Vec::new();
    let mut i: usize = 0;
    while i < n
        invariant
            i <= n,
            n == a@.len(),
            vec_in_range(a@),
            r@.len() == i,
            forall|k: int|
                0 <= k < i ==> (#[trigger] r@[k]) as int == -(a@[k] as int) && in_range(
                    r@[k] as int,
                ),
        decreases n - i,
    {
        r.push(fx_neg(a[i]));
        i += 1;
    }
    r
}

/// Multiply each column `k` of `m` by `w[k]`: the product of `m` with the
/// diagonal matrix carrying `w`.
pub fn scale_cols(m: &Vec<Vec<i64>>, w: &Vec<i64>) -> (r: Vec<Vec<i64>>)
    requires
        mat_wf(m@, m@.len() as int, w@.len() as int),
        vec_in_range(w@),
    ensures
        mat_wf(r@, m@.len() as int, w@.len() as int),
        forall|i: int, k: int|
            0 <= i < m@.len() && 0 <= k < w@.len() ==> (#[trigger] r@[i]@[k]) as int == fx_mul_s(
                m@[i]@[k] as int,
                w@[k] as int,
            ),
{
    let rows = m.len();
    let cols = w.len();
    let mut r: Vec<Vec<i64>> = Vec::new();
    let mut i: usize = 0;
    while i < rows
        invariant
            i <= rows,
            rows == m@.len(),
            cols == w@.len(),
            mat_wf(m@, m@.len() as int, w@.len() as int),
            vec_in_range(w@),
            r@.len() == i,
            forall|p: int|
                0 <= p < i ==> (#[trigger] r@[p])@.len() == cols && vec_in_range(r@[p]@),
            forall|p: int, k: int|
                0 <= p < i && 0 <= k < cols ==> (#[trigger] r@[p]@[k]) as int == fx_mul_s(
                    m@[p]@[k] as int,
                    w@[k] as int,
                ),
        decreases rows - i,
    {
        let mut row: Vec<i64> = Vec::new();
        let mut k: usize = 0;
        while k < cols
            invariant
                k <= cols,
                i < rows,
                rows == m@.len(),
                cols == w@.len(),
                mat_wf(m@, m@.len() as int, w@.len() as int),
                vec_in_range(w@),
                row@.len() == k,
                forall|q: int|
                    0 <= q < k ==> (#[trigger] row@[q]) as int == fx_mul_s(
                        m@[i as int]@[q] as int,
                        w@[q] as int,
                    ) && in_range(row@[q] as int),
            decreases cols - k,
        {
            row.push(fx_mul(m[i][k], w[k]));
            k += 1;
        }
        r.push(row);
        i += 1;
    }
    r
}

/// The integer square root: the greatest `r` with `r * r <= n`.
pub open spec fn isqrt_s(n: int) -> int
    recommends
        n >= 0,
    decreases n,
{
    if n <= 0 {
        0
    } else {
        let p = isqrt_s(n - 1);
        if (p + 1) * (p + 1) <= n {
            p + 1
        } else {
            p
        }
    }
}

/// `isqrt_s(n)` squares to at most `n`, and is the last value to do so.
pub proof fn lemma_isqrt_bounds(n: int)
    requires
        n >= 0,
    ensures
        isqrt_s(n) >= 0,
        isqrt_s(n) * isqrt_s(n) <= n,
        n < (isqrt_s(n) + 1) * (isqrt_s(n) + 1),
    decreases n,
{
    if n == 0 {
    } else {
        lemma_isqrt_bounds(n - 1);
        let p = isqrt_s(n - 1);
        if (p + 1) * (p + 1) <= n {
            assert((p + 2) * (p + 2) > (p + 1) * (p + 1)) by (nonlinear_arith)
                requires
                    p >= 0,
            ;
        }
    }
}

/// Any `r` bracketing `n` between consecutive squares is the square root.
pub proof fn lemma_isqrt_unique(n: int, r: int)
    requires
        n >= 0,
        r >= 0,
        r * r <= n,
        n < (r + 1) * (r + 1),
    ensures
        isqrt_s(n) == r,
{
    lemma_isqrt_bounds(n);
    let s = isqrt_s(n);
    assert(!(r < s) && !(s < r)) by (nonlinear_arith)
        requires
            r >= 0,
            s >= 0,
            r * r <= n,
            s * s <= n,
            n < (r + 1) * (r + 1),
            n < (s + 1) * (s + 1),
    ;
}

/// The exact dot product of a vector with itself is never negative.
pub proof fn lemma_dot_raw_self_nonneg(s: Seq<int>)
    ensures
        dot_raw(s, s) >= 0,
    decreases s.len(),
{
    if s.len() > 0 {
        lemma_dot_raw_self_nonneg(s.drop_last());
        assert(s.last() * s.last() >= 0) by (nonlinear_arith);
    }
}

/// Euclidean norm of a vector: the integer square root of the exact sum of
/// squares (which carries the same fixed-point scale as the entries),
/// saturated into range.
pub fn norm(v: &Vec<i64>) -> (r: i64)
    requires
        v@.len() <= MAX_DIM,
        vec_in_range(v@),
    ensures
        r as int == clip(isqrt_s(dot_raw(ints(v@), ints(v@)))),
        in_range(r as int),
{
    let n = v.len();
    let mut acc: i128 = 0;
    let mut i: usize = 0;
    proof {
        lemma_dot_raw_self_nonneg(ints(v@).take(0));
    }
    while i < n
        invariant
            i <= n,
            n == v@.len(),
            n <= MAX_DIM,
            vec_in_range(v@),
            acc as int == dot_raw(ints(v@).take(i as int), ints(v@).take(i as int)),
            acc >= 0,
            // 19342813113834066795298816 == LIM * LIM
            acc as int <= (i as int) * 19342813113834066795298816,
        decreases n - i,
    {
        proof {
            assert(0 <= (v@[i as int] as int) * (v@[i as int] as int)
                <= 19342813113834066795298816) by (nonlinear_arith)
                requires
                    -4398046511104 <= v@[i as int] as int <= 4398046511104,
            ;
        }
        let term: i128 = (v[i] as i128) * (v[i] as i128);
        acc = acc + term;
        proof {
            assert(ints(v@).take(i + 1).drop_last() =~= ints(v@).take(i as int));
            assert(ints(v@).take(i + 1).last() == v@[i as int] as int);
        }
        i += 1;
    }
    proof {
        assert(ints(v@).take(n as int) =~= ints(v@));
    }
    let root: u64 = isqrt_u128(acc as u128);
    proof {
        lemma_isqrt_unique(acc as int, root as int);
    }
    if root > LIM as u64 {
        LIM
    } else {
        root as i64
    }
}

/// Iteration cap of the conjugate-gradient solver.
pub const CG_MAX_ITERS: usize = 1000;

/// One run of conjugate gradient from state `(x, r, d)` with `rr` the
/// fixed-point squared norm of `r`: returns the final iterate and the number
/// of iterations taken.  The run stops when the squared residual norm
/// truncates to zero (the residual is below the grid's epsilon), when the
/// curvature `d * A * d` is no longer positive (the fixed-point analogue of a
/// non-finite step size, dropped rather than propagated), or when the fuel —
/// the iteration cap — runs out.
pub open spec fn cg_run(
    a: Seq<Seq<int>>,
    x: Seq<int>,
    r: Seq<int>,
    d: Seq<int>,
    rr: int,
    fuel: nat,
) -> (Seq<int>, nat)
    decreases fuel,
{
    if fuel == 0 || rr <= 0 {
        (x, 0nat)
    } else {
        let ad = matvec_s(a, d);
        let dad = fx_dot(d, ad);
        if dad <= 0 {
            (x, 0nat)
        } else {
            let alpha = fx_div_s(rr, dad);
            let x1 = add_scaled_v(x, alpha, d);
            let r1 = sub_scaled_v(r, alpha, ad);
            let rr1 = fx_dot(r1, r1);
            let beta = fx_div_s(rr1, rr);
            let d1 = add_scaled_v(r1, beta, d);
            let rec = cg_run(a, x1, r1, d1, rr1, (fuel - 1) as nat);
            (rec.0, (rec.1 + 1) as nat)
        }
    }
}

/// The whole conjugate-gradient solve of `a * x == b` warm-started at `x0`:
/// residual `b - a * x0`, initial search direction equal to it, then
/// `cg_run` under the iteration cap.
pub open spec fn cg_solve_s(a: Seq<Seq<int>>, b: Seq<int>, x0: Seq<int>) -> (Seq<int>, nat) {
    let r0 = sub_v(b, matvec_s(a, x0));
    cg_run(a, x0, r0, r0, fx_dot(r0, r0), CG_MAX_ITERS as nat)
}

/// Conjugate-gradient solve of `a * x == b`, warm-started at `x0`.
///
/// Returns the final iterate and the number of iterations taken; hitting the
/// iteration cap is silent, the best iterate found is returned.
pub fn conjugate_gradient(a: &Vec<Vec<i64>>, b: &Vec<i64>, x0: &Vec<i64>) -> (res: (
    Vec<i64>,
    usize,
))
    requires
        mat_wf(a@, b@.len() as int, b@.len() as int),
        x0@.len() == b@.len(),
        b@.len() <= MAX_DIM,
        vec_in_range(b@),
        vec_in_range(x0@),
    ensures
        res.0@.len() == b@.len(),
        vec_in_range(res.0@),
        ints(res.0@) == cg_solve_s(mat_ints(a@), ints(b@), ints(x0@)).0,
        res.1 as nat == cg_solve_s(mat_ints(a@), ints(b@), ints(x0@)).1,
        res.1 <= CG_MAX_ITERS,
{
    let ghost am = mat_ints(a@);
    let ghost spec_res = cg_solve_s(am, ints(b@), ints(x0@));
    let n = b.len();
    let ax0 = mat_vec(a, x0);
    let mut r = vec_sub(b, &ax0);
    let mut x = vec_copy(x0);
    let mut d = vec_copy(&r);
    let mut rr: i64 = dot(&r, &r);
    let mut iters: usize = 0;
    proof {
        assert(ints(r@) == sub_v(ints(b@), matvec_s(am, ints(x0@))));
        assert(ints(d@) == ints(r@));
    }
    while iters < CG_MAX_ITERS && rr > 0
        invariant_except_break
            n == b@.len(),
            n <= MAX_DIM,
            mat_wf(a@, n as int, n as int),
            am == mat_ints(a@),
            spec_res == cg_solve_s(am, ints(b@), ints(x0@)),
            x@.len() == n,
            r@.len() == n,
            d@.len() == n,
            vec_in_range(x@),
            vec_in_range(r@),
            vec_in_range(d@),
            in_range(rr as int),
            rr as int == fx_dot(ints(r@), ints(r@)),
            iters <= CG_MAX_ITERS,
            spec_res.0 == cg_run(
                am,
                ints(x@),
                ints(r@),
                ints(d@),
                rr as int,
                (CG_MAX_ITERS - iters) as nat,
            ).0,
            spec_res.1 == iters + cg_run(
                am,
                ints(x@),
                ints(r@),
                ints(d@),
                rr as int,
                (CG_MAX_ITERS - iters) as nat,
            ).1,
        ensures
            x@.len() == n,
            vec_in_range(x@),
            ints(x@) == spec_res.0,
            iters as nat == spec_res.1,
            iters <= CG_MAX_ITERS,
        decreases CG_MAX_ITERS - iters,
    {
        let ad = mat_vec(a, &d);
        let dad = dot(&d, &ad);
        if dad <= 0 {
            proof {
                assert(cg_run(
                    am,
                    ints(x@),
                    ints(r@),
                    ints(d@),
                    rr as int,
                    (CG_MAX_ITERS - iters) as nat,
                ) == (ints(x@), 0nat));
            }
            break ;
        }
        let alpha = fx_div(rr, dad);
        let x1 = add_scaled(&x, alpha, &d);
        let r1 = sub_scaled(&r, alpha, &ad);
        let rr1 = dot(&r1, &r1);
        let beta = fx_div(rr1, rr);
        let d1 = add_scaled(&r1, beta, &d);
        proof {
            let fuel = (CG_MAX_ITERS - iters) as nat;
            assert(cg_run(am, ints(x@), ints(r@), ints(d@), rr as int, fuel).0 == cg_run(
                am,
                ints(x1@),
                ints(r1@),
                ints(d1@),
                rr1 as int,
                (fuel - 1) as nat,
            ).0);
            assert(cg_run(am, ints(x@), ints(r@), ints(d@), rr as int, fuel).1 == 1 + cg_run(
                am,
                ints(x1@),
                ints(r1@),
                ints(d1@),
                rr1 as int,
                (fuel - 1) as nat,
            ).1);
        }
        x = x1;
        r = r1;
        d = d1;
        rr = rr1;
        iters += 1;
    }
    (x, iters)
}

} // verus!
