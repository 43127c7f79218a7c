use vstd::prelude::*;

verus! {

/// The three fatal conditions of the block-coding core.
///
/// None of them is recoverable for the affected block: the caller decides
/// whether to abort or to re-encode with a coarser quantizer.
#[derive(Clone, Copy, Debug, PartialEq, Eq, Structural)]
pub enum CodingError {
    /// A quantization matrix holds a zero step size; rejected at
    /// construction time so that quantization never divides by zero.
    DegenerateQuantizationMatrix,
    /// A differential DC value or an AC level does not fit its coded field.
    /// `position` is the zigzag scan position of the offending coefficient
    /// (0 for the DC coefficient).
    CoefficientOverflow { position: usize },
    /// The block's total coded length exceeds the packer's 128-bit register.
    BitstreamCapacityExceeded,
}

} // verus!
