use vstd::arithmetic::power2::lemma2_to64;
use vstd::arithmetic::power2::pow2;
use vstd::prelude::*;

use crate::coder::ac_encode;
use crate::coder::block_encoding;
use crate::coder::dc_category;
use crate::coder::dc_encode_value;
use crate::coder::zigzag_and_block_bitstream_encoding;
use crate::errors::CodingError;
use crate::quantize::div_trunc;
use crate::quantize::quantize_block;
use crate::tables::dc_table_wf;
use crate::transform::approximate_2d_dct;
use crate::transform::dct_spec;
use crate::transform::sample_block_bounded;

verus! {

/// One coded macroblock: a fixed 3-bit header and the six coded blocks
/// (four luma, two chroma), each a bit pattern of which the low
/// `*_size` bits are significant.
pub struct Macroblock {
    pub headers: u8,
    pub header_size: usize,
    pub y1: u128,
    pub y1_size: usize,
    pub y2: u128,
    pub y2_size: usize,
    pub y3: u128,
    pub y3_size: usize,
    pub y4: u128,
    pub y4_size: usize,
    pub cb: u128,
    pub cb_size: usize,
    pub cr: u128,
    pub cr_size: usize,
}

/// The quantized transform of a sample block: the approximate 2D DCT
/// followed by truncating division by the quantization matrix.
pub open spec fn block_pipeline(a: Seq<i32>, qm: Seq<i32>) -> Seq<i32> {
    Seq::new(64, |j: int| div_trunc(dct_spec(a, j), qm[j] as int) as i32)
}

/// Outcome of coding one sample block against the DC predictor value
/// `prev`: the coded block (or first fatal error), and the value the
/// predictor takes — the block's quantized DC, whether or not the block
/// encoded successfully.
pub open spec fn encode_block_outcome(
    a: Seq<i32>,
    prev: int,
    qm: Seq<i32>,
    table: Seq<(usize, usize)>,
) -> (Result<(nat, nat), CodingError>, int) {
    let q = block_pipeline(a, qm);
    (block_encoding(q, prev, table), q[0] as int)
}

/// Outcome of assembling one macroblock: the six coded blocks in the order
/// Y1, Y2, Y3, Y4, Cb, Cr (or the first fatal error), and the final values
/// of the three DC predictors. The four luma blocks thread one predictor
/// in strict order; Cb and Cr each use their own. A failing block stops
/// the assembly after its own predictor update; blocks not yet attempted
/// leave their predictors unchanged.
pub open spec fn assemble_spec(
    y1: Seq<i32>,
    y2: Seq<i32>,
    y3: Seq<i32>,
    y4: Seq<i32>,
    cb: Seq<i32>,
    cr: Seq<i32>,
    py: int,
    pcb: int,
    pcr: int,
    lum: Seq<(usize, usize)>,
    chr: Seq<(usize, usize)>,
    qm: Seq<i32>,
) -> (Result<Seq<(nat, nat)>, CodingError>, int, int, int) {
    let (r1, p1) = encode_block_outcome(y1, py, qm, lum);
    match r1 {
        Err(e) => (Err(e), p1, pcb, pcr),
        Ok(b1) => {
            let (r2, p2) = encode_block_outcome(y2, p1, qm, lum);
            match r2 {
                Err(e) => (Err(e), p2, pcb, pcr),
                Ok(b2) => {
                    let (r3, p3) = encode_block_outcome(y3, p2, qm, lum);
                    match r3 {
                        Err(e) => (Err(e), p3, pcb, pcr),
                        Ok(b3) => {
                            let (r4, p4) = encode_block_outcome(y4, p3, qm, lum);
                            match r4 {
                                Err(e) => (Err(e), p4, pcb, pcr),
                                Ok(b4) => {
                                    let (r5, p5) = encode_block_outcome(cb, pcb, qm, chr);
                                    match r5 {
                                        Err(e) => (Err(e), p4, p5, pcr),
                                        Ok(b5) => {
                                            let (r6, p6) = encode_block_outcome(cr, pcr, qm, chr);
                                            match r6 {
                                                Err(e) => (Err(e), p4, p5, p6),
                                                Ok(b6) => (
                                                    Ok(seq![b1, b2, b3, b4, b5, b6]),
                                                    p4,
                                                    p5,
                                                    p6,
                                                ),
                                            }
                                        },
                                    }
                                },
                            }
                        },
                    }
                },
            }
        },
    }
}

/// Codes one sample block end to end: transform, quantization, and zigzag
/// bitstream coding against the plane's DC predictor. The predictor takes
/// the block's quantized DC value whether or not the block encodes.
pub fn block_encode(
    a: [i32; 64],
    previous_dc: &mut i32,
    dc_size_table: [(usize, usize); 9],
    quant_matrix: [i32; 64],
) -> (r: Result<(u128, usize), CodingError>)
    requires
        sample_block_bounded(a@),
        forall|i: int| 0 <= i < 64 ==> #[trigger] quant_matrix@[i] > 0,
        dc_table_wf(dc_size_table@),
    ensures
        ({
            let (m, p) = encode_block_outcome(
                a@,
                *old(previous_dc) as int,
                quant_matrix@,
                dc_size_table@,
            );
            &&& *final(previous_dc) == p
            &&& match r {
                Ok(pair) => m == Ok::<(nat, nat), CodingError>((pair.0 as nat, pair.1 as nat)),
                Err(e) => m == Err::<(nat, nat), CodingError>(e),
            }
        }),
{
    let t = approximate_2d_dct(a);
    let q = quantize_block(t, quant_matrix);
    proof {
        assert(q@ =~= block_pipeline(a@, quant_matrix@));
    }
    zigzag_and_block_bitstream_encoding(q, previous_dc, dc_size_table)
}

/// Codes four identical luma sample blocks in sequence: every block after
/// the first sees the block's own quantized DC as its predictor, so its
/// differential DC is 0, falls in size category 0, and its coded block is
/// the category-0 prefix alone followed by the AC part — no amplitude bits.
pub proof fn lemma_repeated_block_dc_category(
    a: Seq<i32>,
    prev: int,
    qm: Seq<i32>,
    table: Seq<(usize, usize)>,
)
    ensures
        ({
            let q = block_pipeline(a, qm);
            let p1 = encode_block_outcome(a, prev, qm, table).1;
            &&& dc_category(q[0] - p1) == 0
            &&& encode_block_outcome(a, p1, qm, table).0 == ac_encode(
                q,
                1,
                0,
                table[0].0 as nat,
                (table[0].1 + 0) as nat,
            )
        }),
{
    lemma2_to64();
}

/// Assembles one macroblock: a fixed 3-bit header (address increment and
/// intra-coded mode) and the six coded blocks Y1..Y4, Cb, Cr. The four
/// luma blocks share `previous_y_dc`, updated in strict order; Cb and Cr
/// use their own predictors. Predictors of attempted blocks are updated
/// in place even when a block fails; the first failure aborts the
/// macroblock.
pub fn encode_macro_block(
    y1: [i32; 64],
    y2: [i32; 64],
    y3: [i32; 64],
    y4: [i32; 64],
    cb: [i32; 64],
    cr: [i32; 64],
    previous_y_dc: &mut i32,
    previous_cb_dc: &mut i32,
    previous_cr_dc: &mut i32,
    luminance_dc_size_table: [(usize, usize); 9],
    chrominance_dc_size_table: [(usize, usize); 9],
    quant_matrix: [i32; 64],
) -> (r: Result<Macroblock, CodingError>)
    requires
        sample_block_bounded(y1@),
        sample_block_bounded(y2@),
        sample_block_bounded(y3@),
        sample_block_bounded(y4@),
        sample_block_bounded(cb@),
        sample_block_bounded(cr@),
        forall|i: int| 0 <= i < 64 ==> #[trigger] quant_matrix@[i] > 0,
        dc_table_wf(luminance_dc_size_table@),
        dc_table_wf(chrominance_dc_size_table@),
    ensures
        ({
            let (m, fy, fcb, fcr) = assemble_spec(
                y1@,
                y2@,
                y3@,
                y4@,
                cb@,
                cr@,
                *old(previous_y_dc) as int,
                *old(previous_cb_dc) as int,
                *old(previous_cr_dc) as int,
                luminance_dc_size_table@,
                chrominance_dc_size_table@,
                quant_matrix@,
            );
            &&& *final(previous_y_dc) == fy
            &&& *final(previous_cb_dc) == fcb
            &&& *final(previous_cr_dc) == fcr
            &&& match (r, m) {
                (Ok(mb), Ok(s)) => {
                    &&& mb.headers == 5
                    &&& mb.header_size == 3
                    &&& mb.y1 as nat == s[0].0 && mb.y1_size as nat == s[0].1
                    &&& mb.y2 as nat == s[1].0 && mb.y2_size as nat == s[1].1
                    &&& mb.y3 as nat == s[2].0 && mb.y3_size as nat == s[2].1
                    &&& mb.y4 as nat == s[3].0 && mb.y4_size as nat == s[3].1
                    &&& mb.cb as nat == s[4].0 && mb.cb_size as nat == s[4].1
                    &&& mb.cr as nat == s[5].0 && mb.cr_size as nat == s[5].1
                },
                (Err(e1), Err(e2)) => e1 == e2,
                _ => false,
            }
        }),
{
    let r1 = block_encode(y1, previous_y_dc, luminance_dc_size_table, quant_matrix);
    let (b1, s1) = match r1 {
        Ok(p) => p,
        Err(e) => {
            return Err(e);
        },
    };
    let r2 = block_encode(y2, previous_y_dc, luminance_dc_size_table, quant_matrix);
    let (b2, s2) = match r2 {
        Ok(p) => p,
        Err(e) => {
            return Err(e);
        },
    };
    let r3 = block_encode(y3, previous_y_dc, luminance_dc_size_table, quant_matrix);
    let (b3, s3) = match r3 {
        Ok(p) => p,
        Err(e) => {
            return Err(e);
        },
    };
    let r4 = block_encode(y4, previous_y_dc, luminance_dc_size_table, quant_matrix);
    let (b4, s4) = match r4 {
        Ok(p) => p,
        Err(e) => {
            return Err(e);
        },
    };
    let r5 = block_encode(cb, previous_cb_dc, chrominance_dc_size_table, quant_matrix);
    let (b5, s5) = match r5 {
        Ok(p) => p,
        Err(e) => {
            return Err(e);
        },
    };
    let r6 = block_encode(cr, previous_cr_dc, chrominance_dc_size_table, quant_matrix);
    let (b6, s6) = match r6 {
        Ok(p) => p,
        Err(e) => {
            return Err(e);
        },
    };
    Ok(
        Macroblock {
            headers: 0b101,
            header_size: 3,
            y1: b1,
            y1_size: s1,
            y2: b2,
            y2_size: s2,
            y3: b3,
            y3_size: s3,
            y4: b4,
            y4_size: s4,
            cb: b5,
            cb_size: s5,
            cr: b6,
            cr_size: s6,
        },
    )
}

} // verus!
