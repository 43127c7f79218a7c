use vstd::arithmetic::power2::lemma2_to64;
use vstd::arithmetic::power2::pow2;
use vstd::prelude::*;

verus! {

/// The fixed zigzag permutation: scan position `k` (ascending spatial
/// frequency) to spatial index (row-major) of the 8x8 grid.
pub open spec fn zigzag_spec(k: int) -> int {
    if k == 0 {
        0
    } else if k == 1 {
        1
    } else if k == 2 {
        8
    } else if k == 3 {
        16
    } else if k == 4 {
        9
    } else if k == 5 {
        2
    } else if k == 6 {
        3
    } else if k == 7 {
        10
    } else if k == 8 {
        17
    } else if k == 9 {
        24
    } else if k == 10 {
        32
    } else if k == 11 {
        25
    } else if k == 12 {
        18
    } else if k == 13 {
        11
    } else if k == 14 {
        4
    } else if k == 15 {
        5
    } else if k == 16 {
        12
    } else if k == 17 {
        19
    } else if k == 18 {
        26
    } else if k == 19 {
        33
    } else if k == 20 {
        40
    } else if k == 21 {
        48
    } else if k == 22 {
        41
    } else if k == 23 {
        34
    } else if k == 24 {
        27
    } else if k == 25 {
        20
    } else if k == 26 {
        13
    } else if k == 27 {
        6
    } else if k == 28 {
        7
    } else if k == 29 {
        14
    } else if k == 30 {
        21
    } else if k == 31 {
        28
    } else if k == 32 {
        35
    } else if k == 33 {
        42
    } else if k == 34 {
        49
    } else if k == 35 {
        56
    } else if k == 36 {
        57
    } else if k == 37 {
        50
    } else if k == 38 {
        43
    } else if k == 39 {
        36
    } else if k == 40 {
        29
    } else if k == 41 {
        22
    } else if k == 42 {
        15
    } else if k == 43 {
        23
    } else if k == 44 {
        30
    } else if k == 45 {
        37
    } else if k == 46 {
        44
    } else if k == 47 {
        51
    } else if k == 48 {
        58
    } else if k == 49 {
        59
    } else if k == 50 {
        52
    } else if k == 51 {
        45
    } else if k == 52 {
        38
    } else if k == 53 {
        31
    } else if k == 54 {
        39
    } else if k == 55 {
        46
    } else if k == 56 {
        53
    } else if k == 57 {
        60
    } else if k == 58 {
        61
    } else if k == 59 {
        54
    } else if k == 60 {
        47
    } else if k == 61 {
        55
    } else if k == 62 {
        62
    } else {
        63
    }
}

/// The inverse of the zigzag permutation: spatial index `j` to the scan
/// position at which it is visited.
pub open spec fn zigzag_inv_spec(j: int) -> int {
    if j == 0 {
        0
    } else if j == 1 {
        1
    } else if j == 2 {
        5
    } else if j == 3 {
        6
    } else if j == 4 {
        14
    } else if j == 5 {
        15
    } else if j == 6 {
        27
    } else if j == 7 {
        28
    } else if j == 8 {
        2
    } else if j == 9 {
        4
    } else if j == 10 {
        7
    } else if j == 11 {
        13
    } else if j == 12 {
        16
    } else if j == 13 {
        26
    } else if j == 14 {
        29
    } else if j == 15 {
        42
    } else if j == 16 {
        3
    } else if j == 17 {
        8
    } else if j == 18 {
        12
    } else if j == 19 {
        17
    } else if j == 20 {
        25
    } else if j == 21 {
        30
    } else if j == 22 {
        41
    } else if j == 23 {
        43
    } else if j == 24 {
        9
    } else if j == 25 {
        11
    } else if j == 26 {
        18
    } else if j == 27 {
        24
    } else if j == 28 {
        31
    } else if j == 29 {
        40
    } else if j == 30 {
        44
    } else if j == 31 {
        53
    } else if j == 32 {
        10
    } else if j == 33 {
        19
    } else if j == 34 {
        23
    } else if j == 35 {
        32
    } else if j == 36 {
        39
    } else if j == 37 {
        45
    } else if j == 38 {
        52
    } else if j == 39 {
        54
    } else if j == 40 {
        20
    } else if j == 41 {
        22
    } else if j == 42 {
        33
    } else if j == 43 {
        38
    } else if j == 44 {
        46
    } else if j == 45 {
        51
    } else if j == 46 {
        55
    } else if j == 47 {
        60
    } else if j == 48 {
        21
    } else if j == 49 {
        34
    } else if j == 50 {
        37
    } else if j == 51 {
        47
    } else if j == 52 {
        50
    } else if j == 53 {
        56
    } else if j == 54 {
        59
    } else if j == 55 {
        61
    } else if j == 56 {
        35
    } else if j == 57 {
        36
    } else if j == 58 {
        48
    } else if j == 59 {
        49
    } else if j == 60 {
        57
    } else if j == 61 {
        58
    } else if j == 62 {
        62
    } else {
        63
    }
}

/// The zigzag permutation is a bijection on the 64 block positions:
/// both orders of composition with its inverse round-trip every index.
pub proof fn lemma_zigzag_bijective()
    ensures
        forall|k: int| 0 <= k < 64 ==> 0 <= #[trigger] zigzag_spec(k) < 64,
        forall|j: int| 0 <= j < 64 ==> 0 <= #[trigger] zigzag_inv_spec(j) < 64,
        forall|k: int| 0 <= k < 64 ==> zigzag_inv_spec(#[trigger] zigzag_spec(k)) == k,
        forall|j: int| 0 <= j < 64 ==> zigzag_spec(#[trigger] zigzag_inv_spec(j)) == j,
{
}

/// The zigzag scan order as a lookup table: entry `k` is the spatial index
/// visited at scan position `k`.
pub fn zigzag_table() -> (r: [usize; 64])
    ensures
        forall|k: int| 0 <= k < 64 ==> #[trigger] r@[k] == zigzag_spec(k),
        forall|k: int| 0 <= k < 64 ==> #[trigger] r@[k] < 64,
{
    [
        0, 1, 8, 16, 9, 2, 3, 10,
        17, 24, 32, 25, 18, 11, 4, 5,
        12, 19, 26, 33, 40, 48, 41, 34,
        27, 20, 13, 6, 7, 14, 21, 28,
        35, 42, 49, 56, 57, 50, 43, 36,
        29, 22, 15, 23, 30, 37, 44, 51,
        58, 59, 52, 45, 38, 31, 39, 46,
        53, 60, 61, 54, 47, 55, 62, 63,
    ]
}

/// The inverse zigzag lookup table: entry `j` is the scan position at which
/// spatial index `j` is visited.
pub fn zigzag_inverse_table() -> (r: [usize; 64])
    ensures
        forall|j: int| 0 <= j < 64 ==> #[trigger] r@[j] == zigzag_inv_spec(j),
        forall|j: int| 0 <= j < 64 ==> #[trigger] r@[j] < 64,
{
    [
        0, 1, 5, 6, 14, 15, 27, 28,
        2, 4, 7, 13, 16, 26, 29, 42,
        3, 8, 12, 17, 25, 30, 41, 43,
        9, 11, 18, 24, 31, 40, 44, 53,
        10, 19, 23, 32, 39, 45, 52, 54,
        20, 22, 33, 38, 46, 51, 55, 60,
        21, 34, 37, 47, 50, 56, 59, 61,
        35, 36, 48, 49, 57, 58, 62, 63,
    ]
}

/// The process-wide quantization step-size matrix: one positive step per
/// frequency position of the 8x8 grid.
pub fn default_quantization_matrix() -> (r: [i32; 64])
    ensures
        forall|i: int| 0 <= i < 64 ==> #[trigger] r@[i] > 0,
{
    [
        8, 16, 19, 22, 26, 27, 29, 34,
        16, 16, 22, 24, 27, 29, 34, 37,
        19, 22, 26, 27, 29, 34, 34, 38,
        22, 22, 26, 27, 29, 34, 37, 40,
        22, 26, 27, 29, 32, 35, 40, 48,
        26, 27, 29, 32, 35, 40, 48, 58,
        26, 27, 29, 34, 38, 46, 56, 69,
        27, 29, 35, 38, 46, 56, 69, 83,
    ]
}

/// Well-formedness of a DC size-class table: nine entries, one per
/// magnitude category 0..8, each a prefix code of at most 8 bits whose
/// value fits its stated bit length.
pub open spec fn dc_table_wf(t: Seq<(usize, usize)>) -> bool {
    &&& t.len() == 9
    &&& forall|k: int| 0 <= k < 9 ==> 1 <= (#[trigger] t[k]).1 <= 8
    &&& forall|k: int| 0 <= k < 9 ==> (#[trigger] t[k]).0 < pow2(t[k].1 as nat)
}

/// The luminance DC size-class entries as a mathematical sequence.
pub open spec fn luminance_table_spec() -> Seq<(usize, usize)> {
    seq![(4usize, 3usize), (0, 2), (1, 2), (5, 3), (6, 3), (14, 4), (30, 5), (62, 6), (126, 7)]
}

/// The chrominance DC size-class entries as a mathematical sequence.
pub open spec fn chrominance_table_spec() -> Seq<(usize, usize)> {
    seq![(0usize, 2usize), (1, 2), (2, 2), (6, 3), (14, 4), (30, 5), (62, 6), (126, 7), (254, 8)]
}

/// The luminance DC size-class table: category to (prefix code, bit length).
pub fn luminance_dc_size_table() -> (r: [(usize, usize); 9])
    ensures
        r@ == luminance_table_spec(),
        dc_table_wf(r@),
{
    proof {
        lemma2_to64();
    }
    let out: [(usize, usize); 9] =     [
        (4, 3),
        (0, 2),
        (1, 2),
        (5, 3),
        (6, 3),
        (14, 4),
        (30, 5),
        (62, 6),
        (126, 7),
    ];
    proof {
        assert(out@ =~= luminance_table_spec());
    }
    out
}

/// The chrominance DC size-class table: category to (prefix code, bit length).
pub fn chrominance_dc_size_table() -> (r: [(usize, usize); 9])
    ensures
        r@ == chrominance_table_spec(),
        dc_table_wf(r@),
{
    proof {
        lemma2_to64();
    }
    let out: [(usize, usize); 9] =     [
        (0, 2),
        (1, 2),
        (2, 2),
        (6, 3),
        (14, 4),
        (30, 5),
        (62, 6),
        (126, 7),
        (254, 8),
    ];
    proof {
        assert(out@ =~= chrominance_table_spec());
    }
    out
}

} // verus!
