use intra_codec::approximate_2d_dct;

#[test]
fn t_dct_zero_outside_low_band() {
    let mut a = [0i32; 64];
    for i in 0..64 {
        a[i] = (i as i32 * 7) % 103 - 51;
    }
    let out = approximate_2d_dct(a);
    for r in 0..8 {
        for c in 0..8 {
            if r >= 4 || c >= 4 {
                assert_eq!(out[8 * r + c], 0, "position ({}, {}) must be zero", r, c);
            }
        }
    }
}

#[test]
fn t_dct_constant_block() {
    let a = [1i32; 64];
    let out = approximate_2d_dct(a);
    assert_eq!(out[0], 8);
    for j in 1..64 {
        assert_eq!(out[j], 0);
    }
}

#[test]
fn t_dct_negative_scaling_rounds_down() {
    let mut a = [0i32; 64];
    a[0] = -1;
    let out = approximate_2d_dct(a);
    // the truncating right shifts round toward negative infinity
    assert_eq!(out[0], -1);
    assert_eq!(out[2], -1);
    assert_eq!(out[16], -1);
    assert_eq!(out[18], -1);
    for j in 0..64 {
        if j != 0 && j != 2 && j != 16 && j != 18 {
            assert_eq!(out[j], 0, "position {} must be zero", j);
        }
    }
}
