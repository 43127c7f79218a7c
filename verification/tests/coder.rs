use intra_codec::CodingError;
use intra_codec::luminance_dc_size_table;
use intra_codec::zigzag_and_block_bitstream_encoding;
use intra_codec::zigzag_table;

/// The smallest category c with |delta| < 2^c.
fn category_of(delta: i32) -> usize {
    let mut c = 0;
    while (1i64 << c) <= delta.unsigned_abs() as i64 {
        c += 1;
    }
    c
}

/// The amplitude bits of a differential DC value in category c.
fn amplitude_of(delta: i32, c: usize) -> u128 {
    if delta >= 0 {
        delta as u128
    } else {
        (delta - 1 + (1i32 << c)) as u128
    }
}

/// Recovers the delta from a (category, amplitude) pair.
fn decode_dc(c: usize, amp: u128) -> i32 {
    if c == 0 {
        0
    } else if amp >= (1u128 << (c - 1)) {
        amp as i32
    } else {
        amp as i32 + 1 - (1i32 << c)
    }
}

#[test]
fn t_all_zero_block_is_dc_prefix_and_eob() {
    let a = [0i32; 64];
    let mut prev = 0i32;
    let table = luminance_dc_size_table();
    let r = zigzag_and_block_bitstream_encoding(a, &mut prev, table);
    // category-0 prefix 0b100 followed immediately by the end-of-block 0b10
    assert_eq!(r, Ok((0b10010u128, 5usize)));
    assert_eq!(prev, 0);
}

#[test]
fn t_dc_round_trip_across_category_boundaries() {
    let table = luminance_dc_size_table();
    for delta in -255i32..=255 {
        let a = {
            let mut a = [0i32; 64];
            a[0] = delta;
            a
        };
        let mut prev = 0i32;
        let r = zigzag_and_block_bitstream_encoding(a, &mut prev, table).unwrap();
        assert_eq!(prev, delta);
        let c = category_of(delta);
        let amp = amplitude_of(delta, c);
        let (prefix, len) = table[c];
        let expected_bits = ((((prefix as u128) << c) | amp) << 2) | 0b10;
        let expected_size = len + c + 2;
        assert_eq!(r, (expected_bits, expected_size), "delta {}", delta);
        // decoding the emitted (category, amplitude) pair reproduces the delta
        assert_eq!(decode_dc(c, amp), delta, "round trip at delta {}", delta);
    }
}

#[test]
fn t_ac_run_level_pairs() {
    let zz = zigzag_table();
    let mut a = [0i32; 64];
    // quantized AC sequence in scan order: [0, 0, 5, 0, 0, 0, -3, 0, ..., 0]
    a[zz[3]] = 5;
    a[zz[7]] = -3;
    let mut prev = 0i32;
    let r = zigzag_and_block_bitstream_encoding(a, &mut prev, luminance_dc_size_table());
    // DC category 0, pair (run 2, level 5), pair (run 3, level -3), end of block
    let pair1: u128 = (64 + 2) * 256 + 5;
    let pair2: u128 = (64 + 3) * 256 + 253;
    let expected = ((((0b100u128 << 20) | pair1) << 20) | pair2) << 2 | 0b10;
    assert_eq!(r, Ok((expected, 3 + 20 + 20 + 2)));
}

#[test]
fn t_ac_level_overflow_is_reported() {
    let mut a = [0i32; 64];
    a[1] = 200;
    let mut prev = 0i32;
    let r = zigzag_and_block_bitstream_encoding(a, &mut prev, luminance_dc_size_table());
    assert_eq!(r, Err(CodingError::CoefficientOverflow { position: 1 }));
}

#[test]
fn t_negative_ac_level_overflow_is_reported() {
    let mut a = [0i32; 64];
    a[1] = -129;
    let mut prev = 0i32;
    let r = zigzag_and_block_bitstream_encoding(a, &mut prev, luminance_dc_size_table());
    assert_eq!(r, Err(CodingError::CoefficientOverflow { position: 1 }));
}

#[test]
fn t_dc_delta_overflow_is_reported() {
    let mut a = [0i32; 64];
    a[0] = 300;
    let mut prev = 0i32;
    let r = zigzag_and_block_bitstream_encoding(a, &mut prev, luminance_dc_size_table());
    assert_eq!(r, Err(CodingError::CoefficientOverflow { position: 0 }));
    // the predictor takes the DC value even though the block failed
    assert_eq!(prev, 300);
}

#[test]
fn t_capacity_exceeded_on_seventh_pair() {
    let zz = zigzag_table();
    let mut a = [0i32; 64];
    for k in 1..=7 {
        a[zz[k]] = 1;
    }
    let mut prev = 0i32;
    let r = zigzag_and_block_bitstream_encoding(a, &mut prev, luminance_dc_size_table());
    assert_eq!(r, Err(CodingError::BitstreamCapacityExceeded));
}

#[test]
fn t_capacity_boundary_six_pairs_fit() {
    let zz = zigzag_table();
    let mut a = [0i32; 64];
    for k in 1..=6 {
        a[zz[k]] = 1;
    }
    let mut prev = 0i32;
    let r = zigzag_and_block_bitstream_encoding(a, &mut prev, luminance_dc_size_table());
    let (_, size) = r.unwrap();
    assert_eq!(size, 3 + 6 * 20 + 2);
}

#[test]
fn t_predictor_updates_when_block_fails() {
    let mut a = [0i32; 64];
    a[0] = 42;
    a[1] = 200;
    let mut prev = 0i32;
    let r = zigzag_and_block_bitstream_encoding(a, &mut prev, luminance_dc_size_table());
    assert_eq!(r, Err(CodingError::CoefficientOverflow { position: 1 }));
    assert_eq!(prev, 42);
}
