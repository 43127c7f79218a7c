use intra_codec::CodingError;
use intra_codec::chrominance_dc_size_table;
use intra_codec::default_quantization_matrix;
use intra_codec::encode_macro_block;
use intra_codec::luminance_dc_size_table;

#[test]
fn t_identical_luma_blocks_share_dc() {
    // A constant block of 1 transforms to DC 64, scaled to 8, quantized by
    // step 8 to 1: Y1 codes delta 1, and Y2..Y4 inherit Y1's DC exactly,
    // so each codes delta 0 in category 0 with no amplitude bits.
    let block = [1i32; 64];
    let mut py = 0i32;
    let mut pcb = 0i32;
    let mut pcr = 0i32;
    let mb = encode_macro_block(
        block,
        block,
        block,
        block,
        block,
        block,
        &mut py,
        &mut pcb,
        &mut pcr,
        luminance_dc_size_table(),
        chrominance_dc_size_table(),
        default_quantization_matrix(),
    )
    .unwrap();
    assert_eq!(mb.headers, 0b101);
    assert_eq!(mb.header_size, 3);
    // Y1: luma category 1 (prefix 0b00), amplitude 1, end of block
    assert_eq!((mb.y1, mb.y1_size), (0b00_1_10u128, 5));
    // Y2..Y4: luma category 0 (prefix 0b100), no amplitude, end of block
    assert_eq!((mb.y2, mb.y2_size), (0b100_10u128, 5));
    assert_eq!((mb.y3, mb.y3_size), (0b100_10u128, 5));
    assert_eq!((mb.y4, mb.y4_size), (0b100_10u128, 5));
    // Cb, Cr: chroma category 1 (prefix 0b01), amplitude 1, end of block
    assert_eq!((mb.cb, mb.cb_size), (0b01_1_10u128, 5));
    assert_eq!((mb.cr, mb.cr_size), (0b01_1_10u128, 5));
    assert_eq!(py, 1);
    assert_eq!(pcb, 1);
    assert_eq!(pcr, 1);
}

#[test]
fn t_macroblock_failure_stops_after_bad_block() {
    // Y2 quantizes to an AC level of 200 at scan position 1 (spatial index
    // 1: transform 25600 -> scaled 3200 -> step 16 -> 200), while its DC
    // sums to zero. The assembly stops at Y2 after updating the luma
    // predictor; the chroma predictors are never touched.
    let zero = [0i32; 64];
    let mut bad = [0i32; 64];
    bad[1] = 25600;
    bad[2] = -25600;
    let mut py = 0i32;
    let mut pcb = 7i32;
    let mut pcr = 9i32;
    let r = encode_macro_block(
        zero,
        bad,
        zero,
        zero,
        zero,
        zero,
        &mut py,
        &mut pcb,
        &mut pcr,
        luminance_dc_size_table(),
        chrominance_dc_size_table(),
        default_quantization_matrix(),
    );
    assert!(matches!(
        r,
        Err(CodingError::CoefficientOverflow { position: 1 })
    ));
    assert_eq!(py, 0);
    assert_eq!(pcb, 7);
    assert_eq!(pcr, 9);
}

#[test]
fn t_luma_predictor_threads_across_blocks() {
    // Two different constant blocks: the second's delta is coded against
    // the first's DC, not against the caller's initial predictor.
    let one = [1i32; 64];
    let three = [3i32; 64];
    let mut py = 0i32;
    let mut pcb = 0i32;
    let mut pcr = 0i32;
    let mb = encode_macro_block(
        one,
        three,
        three,
        one,
        one,
        one,
        &mut py,
        &mut pcb,
        &mut pcr,
        luminance_dc_size_table(),
        chrominance_dc_size_table(),
        default_quantization_matrix(),
    )
    .unwrap();
    // Y2: delta 3 - 1 = 2, category 2 (prefix 0b01), amplitude 0b10
    assert_eq!((mb.y2, mb.y2_size), (0b01_10_10u128, 6));
    // Y3: delta 0, category 0
    assert_eq!((mb.y3, mb.y3_size), (0b100_10u128, 5));
    // Y4: delta 1 - 3 = -2, category 2, amplitude low 2 bits of -3 = 0b01
    assert_eq!((mb.y4, mb.y4_size), (0b01_01_10u128, 6));
    assert_eq!(py, 1);
}
