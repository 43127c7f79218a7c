use vstd::arithmetic::div_mod::lemma_fundamental_div_mod;
use vstd::arithmetic::div_mod::lemma_mod_division_less_than_divisor;
use vstd::prelude::*;

use crate::errors::CodingError;

verus! {

/// Integer division truncating toward zero (the rounding of Rust's `/`),
/// stated over mathematical integers. `b` must be positive.
pub open spec fn div_trunc(a: int, b: int) -> int {
    if a >= 0 {
        a / b
    } else {
        -((-a) / b)
    }
}

/// Uniform quantization of a transformed block: each coefficient is divided
/// by the matching step size of the quantization matrix (quantizer scale
/// fixed at 1), truncating toward zero.
pub fn quantize_block(a: [i32; 64], quant_matrix: [i32; 64]) -> (r: [i32; 64])
    requires
        forall|i: int| 0 <= i < 64 ==> #[trigger] quant_matrix@[i] > 0,
    ensures
        forall|i: int|
            0 <= i < 64 ==> #[trigger] r@[i] == div_trunc(a@[i] as int, quant_matrix@[i] as int),
{
    let mut out: [i32; 64] = [0; 64];
    for i in 0..64
        invariant
            forall|k: int| 0 <= k < 64 ==> #[trigger] quant_matrix@[k] > 0,
            forall|k: int|
                0 <= k < i ==> #[trigger] out@[k] == div_trunc(a@[k] as int, quant_matrix@[k] as int),
    {
        proof {
            if a@[i as int] >= 0 {
                lemma_quantize_truncation(a@[i as int] as int, quant_matrix@[i as int] as int);
            } else {
                lemma_quantize_truncation(-(a@[i as int] as int), quant_matrix@[i as int] as int);
            }
        }
        out[i] = a[i] / quant_matrix[i];
    }
    out
}

/// Truncating division brackets the dividend between consecutive multiples
/// of the divisor: for `x >= 0`, `q*m <= x < (q+1)*m`, and mirrored for
/// `x < 0`, `(q-1)*m < x <= q*m`, where `q == div_trunc(x, m)`.
pub proof fn lemma_quantize_truncation(x: int, m: int)
    requires
        m > 0,
    ensures
        x >= 0 ==> div_trunc(x, m) * m <= x < (div_trunc(x, m) + 1) * m,
        x < 0 ==> (div_trunc(x, m) - 1) * m < x <= div_trunc(x, m) * m,
{
    if x >= 0 {
        let q = x / m;
        lemma_fundamental_div_mod(x, m);
        lemma_mod_division_less_than_divisor(x, m);
        assert(x == m * q + x % m);
        assert(q * m <= x < (q + 1) * m) by (nonlinear_arith)
            requires
                x == m * q + x % m,
                0 <= x % m < m,
        ;
    } else {
        let q = (-x) / m;
        lemma_fundamental_div_mod(-x, m);
        lemma_mod_division_less_than_divisor(-x, m);
        assert(-x == m * q + (-x) % m);
        assert((-q - 1) * m < x <= (-q) * m) by (nonlinear_arith)
            requires
                -x == m * q + (-x) % m,
                0 <= (-x) % m < m,
        ;
    }
}

/// Checks a quantization matrix at construction time: every step size must
/// be positive, so that no later per-block quantization can divide by zero
/// or flip a coefficient's sign.
pub fn validate_quantization_matrix(quant_matrix: &[i32; 64]) -> (r: Result<(), CodingError>)
    ensures
        r is Ok <==> (forall|i: int| 0 <= i < 64 ==> #[trigger] quant_matrix@[i] > 0),
        r is Err ==> r == Err::<(), CodingError>(CodingError::DegenerateQuantizationMatrix),
{
    for i in 0..64
        invariant
            forall|k: int| 0 <= k < i ==> #[trigger] quant_matrix@[k] > 0,
    {
        if quant_matrix[i] <= 0 {
            return Err(CodingError::DegenerateQuantizationMatrix);
        }
    }
    Ok(())
}

} // verus!
