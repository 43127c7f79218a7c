use vstd::arithmetic::div_mod::lemma_div_nonincreasing;
use vstd::arithmetic::div_mod::lemma_div_pos_is_pos;
use vstd::arithmetic::div_mod::lemma_fundamental_div_mod;
use vstd::arithmetic::div_mod::lemma_fundamental_div_mod_converse;
use vstd::arithmetic::div_mod::lemma_mod_division_less_than_divisor;
use vstd::prelude::*;

verus! {

/// Largest sample magnitude for which every intermediate of the separable
/// transform provably fits a 32-bit signed integer: the widest intermediate
/// is a sum of 64 samples, and 64 * 33554431 < i32::MAX.
pub const SAMPLE_LIMIT: i32 = 33554431;

/// Every entry of an 8x8 sample block is within the magnitude bound that
/// keeps the transform's integer arithmetic free of overflow.
pub open spec fn sample_block_bounded(a: Seq<i32>) -> bool {
    forall|i: int| 0 <= i < 64 ==> -SAMPLE_LIMIT <= #[trigger] a[i] <= SAMPLE_LIMIT
}

/// Row pass of the separable transform: entry (r, c) of T*A, where T keeps
/// only the four low-frequency basis rows and rows 4..7 vanish.
pub open spec fn dct_row_pass(a: Seq<i32>, r: int, c: int) -> int {
    if r == 0 {
        a[c] + a[8 + c] + a[16 + c] + a[24 + c] + a[32 + c] + a[40 + c] + a[48 + c] + a[56 + c]
    } else if r == 1 {
        a[8 + c] - a[48 + c]
    } else if r == 2 {
        a[c] - a[24 + c] - a[32 + c] + a[56 + c]
    } else if r == 3 {
        a[32 + c] - a[24 + c]
    } else {
        0
    }
}

/// Column pass: entry (r, c) of (T*A)*transpose(T), combining the row-pass
/// entries of row r; columns 4..7 vanish.
pub open spec fn dct_col_pass(a: Seq<i32>, r: int, c: int) -> int {
    if c == 0 {
        dct_row_pass(a, r, 0) + dct_row_pass(a, r, 1) + dct_row_pass(a, r, 2) + dct_row_pass(
            a,
            r,
            3,
        ) + dct_row_pass(a, r, 4) + dct_row_pass(a, r, 5) + dct_row_pass(a, r, 6) + dct_row_pass(
            a,
            r,
            7,
        )
    } else if c == 1 {
        dct_row_pass(a, r, 1) - dct_row_pass(a, r, 6)
    } else if c == 2 {
        dct_row_pass(a, r, 0) - dct_row_pass(a, r, 3) - dct_row_pass(a, r, 4) + dct_row_pass(
            a,
            r,
            7,
        )
    } else if c == 3 {
        dct_row_pass(a, r, 4) - dct_row_pass(a, r, 3)
    } else {
        0
    }
}

/// The transform's output at linear position `j`: the column-pass value
/// scaled by the retained band's factor 1/8, 1/2, 1/4 or 1/2, applied as a
/// truncating right shift, that is floor division by the power of two.
/// All 60 positions outside the top-left 4x4 sub-block are zero.
pub open spec fn dct_spec(a: Seq<i32>, j: int) -> int {
    if 0 <= j < 8 {
        dct_col_pass(a, 0, j) / 8
    } else if 8 <= j < 16 {
        dct_col_pass(a, 1, j - 8) / 2
    } else if 16 <= j < 24 {
        dct_col_pass(a, 2, j - 16) / 4
    } else if 24 <= j < 32 {
        dct_col_pass(a, 3, j - 24) / 2
    } else {
        0
    }
}

proof fn lemma_row_pass_bounded(a: Seq<i32>, r: int, c: int)
    requires
        sample_block_bounded(a),
        0 <= r < 8,
        0 <= c < 8,
    ensures
        -(8 * SAMPLE_LIMIT as int) <= dct_row_pass(a, r, c) <= 8 * SAMPLE_LIMIT as int,
{
    assert(-SAMPLE_LIMIT <= a[c] <= SAMPLE_LIMIT);
    assert(-SAMPLE_LIMIT <= a[8 + c] <= SAMPLE_LIMIT);
    assert(-SAMPLE_LIMIT <= a[16 + c] <= SAMPLE_LIMIT);
    assert(-SAMPLE_LIMIT <= a[24 + c] <= SAMPLE_LIMIT);
    assert(-SAMPLE_LIMIT <= a[32 + c] <= SAMPLE_LIMIT);
    assert(-SAMPLE_LIMIT <= a[40 + c] <= SAMPLE_LIMIT);
    assert(-SAMPLE_LIMIT <= a[48 + c] <= SAMPLE_LIMIT);
    assert(-SAMPLE_LIMIT <= a[56 + c] <= SAMPLE_LIMIT);
}

proof fn lemma_col_pass_bounded(a: Seq<i32>, r: int, c: int)
    requires
        sample_block_bounded(a),
        0 <= r < 8,
        0 <= c < 8,
    ensures
        -(64 * SAMPLE_LIMIT as int) <= dct_col_pass(a, r, c) <= 64 * SAMPLE_LIMIT as int,
{
    lemma_row_pass_bounded(a, r, 0);
    lemma_row_pass_bounded(a, r, 1);
    lemma_row_pass_bounded(a, r, 2);
    lemma_row_pass_bounded(a, r, 3);
    lemma_row_pass_bounded(a, r, 4);
    lemma_row_pass_bounded(a, r, 5);
    lemma_row_pass_bounded(a, r, 6);
    lemma_row_pass_bounded(a, r, 7);
}

/// Floor division (rounding toward negative infinity) of `v` by a small
/// positive divisor, the arithmetic of a truncating right shift.
fn floor_div_small(v: i32, d: i32) -> (r: i32)
    requires
        1 <= d <= 8,
        i32::MIN + d <= v,
    ensures
        r == v as int / d as int,
{
    if v >= 0 {
        proof {
            lemma_div_pos_is_pos(v as int, d as int);
            lemma_div_nonincreasing(v as int, d as int);
        }
        v / d
    } else {
        proof {
            let x = v as int;
            let dd = d as int;
            let q = x / dd;
            lemma_fundamental_div_mod(x, dd);
            lemma_mod_division_less_than_divisor(x, dd);
            assert(dd - 1 - x == (-q) * dd + (dd - 1 - x % dd)) by (nonlinear_arith)
                requires
                    x == dd * q + x % dd,
            ;
            lemma_fundamental_div_mod_converse(dd - 1 - x, dd, -q, dd - 1 - x % dd);
            assert(q >= x) by (nonlinear_arith)
                requires
                    x == dd * q + x % dd,
                    0 <= x % dd < dd,
                    1 <= dd,
                    x < 0,
            ;
        }
        (v - (d - 1)) / d
    }
}

/// Approximate forward 2D DCT on an 8x8 block: a separable integer
/// butterfly (row transform, column transform, then a power-of-two right
/// shift per retained band) that keeps only the low-frequency 4x4 corner.
/// Pure function of its input; every position outside the top-left 4x4
/// sub-block of the result is exactly zero.
#[verifier::rlimit(80)]
pub fn approximate_2d_dct(a: [i32; 64]) -> (r: [i32; 64])
    requires
        sample_block_bounded(a@),
    ensures
        forall|j: int| 0 <= j < 64 ==> #[trigger] r@[j] == dct_spec(a@, j),
        forall|j: int| 0 <= j < 64 && (j >= 32 || j % 8 >= 4) ==> #[trigger] r@[j] == 0,
{
    let mut rows: [i32; 64] = [0; 64];
    for n in 0..8
        invariant
            sample_block_bounded(a@),
            forall|j: int|
                0 <= j < 64 && j % 8 < n ==> #[trigger] rows@[j] == dct_row_pass(a@, j / 8, j % 8),
            forall|j: int| 0 <= j < 64 && j % 8 >= n ==> #[trigger] rows@[j] == 0,
    {
        rows[n] = a[n] + a[8 + n] + a[16 + n] + a[24 + n] + a[32 + n] + a[40 + n] + a[48 + n] + a[56
            + n];
        rows[8 + n] = a[8 + n] - a[48 + n];
        rows[16 + n] = a[n] - a[24 + n] - a[32 + n] + a[56 + n];
        rows[24 + n] = a[32 + n] - a[24 + n];
    }
    assert forall|j: int| 0 <= j < 64 implies -(8 * SAMPLE_LIMIT as int) <= #[trigger] rows@[j]
        <= 8 * SAMPLE_LIMIT as int by {
        lemma_row_pass_bounded(a@, j / 8, j % 8);
    };
    let mut cols: [i32; 64] = [0; 64];
    for n in 0..8
        invariant
            sample_block_bounded(a@),
            forall|j: int|
                0 <= j < 64 ==> #[trigger] rows@[j] == dct_row_pass(a@, j / 8, j % 8),
            forall|j: int|
                0 <= j < 64 ==> -(8 * SAMPLE_LIMIT as int) <= #[trigger] rows@[j] <= 8
                    * SAMPLE_LIMIT as int,
            forall|j: int|
                0 <= j < 8 * n ==> #[trigger] cols@[j] == dct_col_pass(a@, j / 8, j % 8),
            forall|j: int| 8 * n <= j < 64 ==> #[trigger] cols@[j] == 0,
    {
        let base = 8 * n;
        cols[base] = rows[base] + rows[base + 1] + rows[base + 2] + rows[base + 3] + rows[base + 4]
            + rows[base + 5] + rows[base + 6] + rows[base + 7];
        cols[base + 1] = rows[base + 1] - rows[base + 6];
        cols[base + 2] = rows[base] - rows[base + 3] - rows[base + 4] + rows[base + 7];
        cols[base + 3] = rows[base + 4] - rows[base + 3];
    }
    assert forall|j: int| 0 <= j < 64 implies -(64 * SAMPLE_LIMIT as int) <= #[trigger] cols@[j]
        <= 64 * SAMPLE_LIMIT as int by {
        lemma_col_pass_bounded(a@, j / 8, j % 8);
    };
    let mut out: [i32; 64] = [0; 64];
    for n in 0..8
        invariant
            sample_block_bounded(a@),
            forall|j: int|
                0 <= j < 64 ==> #[trigger] cols@[j] == dct_col_pass(a@, j / 8, j % 8),
            forall|j: int|
                0 <= j < 64 ==> -(64 * SAMPLE_LIMIT as int) <= #[trigger] cols@[j] <= 64
                    * SAMPLE_LIMIT as int,
            forall|j: int| 0 <= j < 64 && j % 8 < n ==> #[trigger] out@[j] == dct_spec(a@, j),
            forall|j: int| 0 <= j < 64 && j % 8 >= n ==> #[trigger] out@[j] == 0,
    {
        out[n] = floor_div_small(cols[n], 8);
        out[8 + n] = floor_div_small(cols[8 + n], 2);
        out[16 + n] = floor_div_small(cols[16 + n], 4);
        out[24 + n] = floor_div_small(cols[24 + n], 2);
    }
    out
}

} // verus!
