use intra_codec::CodingError;
use intra_codec::default_quantization_matrix;
use intra_codec::quantize_block;
use intra_codec::validate_quantization_matrix;

#[test]
fn t_quantize_truncates_toward_zero() {
    let mut a = [0i32; 64];
    a[0] = -7;
    a[1] = 17;
    a[2] = -17;
    a[3] = 7;
    let m = [8i32; 64];
    let q = quantize_block(a, m);
    assert_eq!(q[0], 0);
    assert_eq!(q[1], 2);
    assert_eq!(q[2], -2);
    assert_eq!(q[3], 0);
    for j in 4..64 {
        assert_eq!(q[j], 0);
    }
}

#[test]
fn t_quantize_division_brackets() {
    let mut a = [0i32; 64];
    a[0] = 29;
    a[1] = -29;
    let m = [8i32; 64];
    let q = quantize_block(a, m);
    // q*m <= x < (q+1)*m for the non-negative entry
    assert!(q[0] * m[0] <= a[0] && a[0] < (q[0] + 1) * m[0]);
    // mirrored bound for the negative entry
    assert!((q[1] - 1) * m[1] < a[1] && a[1] <= q[1] * m[1]);
    assert_eq!(q[0], 3);
    assert_eq!(q[1], -3);
}

#[test]
fn t_quantization_matrix_validation() {
    let good = default_quantization_matrix();
    assert!(validate_quantization_matrix(&good).is_ok());
    let mut bad = good;
    bad[27] = 0;
    assert_eq!(
        validate_quantization_matrix(&bad),
        Err(CodingError::DegenerateQuantizationMatrix)
    );
}
