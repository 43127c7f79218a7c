//! Intra-frame block-coding core of a block-based video compressor.
//!
//! The library turns 8x8 integer sample blocks into compact variable-length
//! bitstream fragments: an approximate integer-only 2D DCT keeps only the
//! low-frequency 4x4 corner, a quantizer divides by a step-size matrix,
//! a zigzag scanner with differential DC coding and escape-coded run/level
//! AC coding produces each block's code, a bit packer accumulates the codes
//! MSB-first in a 128-bit register, and a macroblock assembler packages four
//! luma and two chroma coded blocks behind a fixed header.

mod assembler;
mod bitpack;
mod coder;
mod errors;
mod quantize;
mod tables;
mod transform;

pub use assembler::Macroblock;
pub use assembler::assemble_spec;
pub use assembler::block_encode;
pub use assembler::block_pipeline;
pub use assembler::encode_block_outcome;
pub use assembler::encode_macro_block;
pub use assembler::lemma_repeated_block_dc_category;
pub use bitpack::BitPacker;
pub use coder::ac_encode;
pub use coder::ac_pair_code;
pub use coder::block_encoding;
pub use coder::dc_amplitude;
pub use coder::dc_category;
pub use coder::dc_decode;
pub use coder::dc_encode_value;
pub use coder::lemma_dc_round_trip;
pub use coder::level_bits;
pub use coder::zigzag_and_block_bitstream_encoding;
pub use errors::CodingError;
pub use quantize::div_trunc;
pub use quantize::lemma_quantize_truncation;
pub use quantize::quantize_block;
pub use quantize::validate_quantization_matrix;
pub use tables::chrominance_dc_size_table;
pub use tables::chrominance_table_spec;
pub use tables::dc_table_wf;
pub use tables::default_quantization_matrix;
pub use tables::lemma_zigzag_bijective;
pub use tables::luminance_dc_size_table;
pub use tables::luminance_table_spec;
pub use tables::zigzag_inv_spec;
pub use tables::zigzag_inverse_table;
pub use tables::zigzag_spec;
pub use tables::zigzag_table;
pub use transform::SAMPLE_LIMIT;
pub use transform::approximate_2d_dct;
pub use transform::dct_col_pass;
pub use transform::dct_row_pass;
pub use transform::dct_spec;
pub use transform::sample_block_bounded;
