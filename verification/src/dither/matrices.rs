//! Error diffusion kernel definitions.
//!
//! Each kernel is a list of (offset, weight) entries. A weight is the
//! exact rational `num / den`; within one kernel every entry shares the
//! same denominator and the numerators sum to it, so the weights sum to
//! exactly 1. Every offset points at a pixel visited after the current
//! one in a left-to-right scan: below the current row, or to the right
//! within it.

use vstd::prelude::*;

use crate::dither::ErrorDiffusionKernel;

verus! {

/// An error diffusion kernel entry: offset from the current pixel and
/// the fraction `num / den` of the quantization error it receives.
#[derive(Debug, Clone, Copy, PartialEq, Eq, Structural)]
pub struct DiffusionEntry {
    /// Column offset from the current pixel, in scan direction.
    pub dx: i32,
    /// Row offset from the current pixel.
    pub dy: i32,
    /// Weight numerator.
    pub num: u32,
    /// Weight denominator, shared by the whole kernel.
    pub den: u32,
}

/// The entries of each kernel.
///
/// Floyd-Steinberg spreads 7/3/5/1 over 16; the simplified form
/// 3/3/2 over 8; Jarvis-Judice-Ninke twelve entries over 48; Stucki
/// twelve over 42; Burkes seven over 32; Sierra-3 ten over 32;
/// Sierra-2 seven over 16; Sierra-2-4A three over 4.
pub open spec fn spec_kernel(k: ErrorDiffusionKernel) -> Seq<DiffusionEntry> {
    match k {
        ErrorDiffusionKernel::FloydSteinberg => seq![
            (DiffusionEntry { dx: 1, dy: 0, num: 7, den: 16 }),
            (DiffusionEntry { dx: -1i32, dy: 1, num: 3, den: 16 }),
            (DiffusionEntry { dx: 0, dy: 1, num: 5, den: 16 }),
            (DiffusionEntry { dx: 1, dy: 1, num: 1, den: 16 }),
        ],
        ErrorDiffusionKernel::FalseFloydSteinberg => seq![
            (DiffusionEntry { dx: 1, dy: 0, num: 3, den: 8 }),
            (DiffusionEntry { dx: 0, dy: 1, num: 3, den: 8 }),
            (DiffusionEntry { dx: 1, dy: 1, num: 2, den: 8 }),
        ],
        ErrorDiffusionKernel::Jarvis => seq![
            (DiffusionEntry { dx: 1, dy: 0, num: 7, den: 48 }),
            (DiffusionEntry { dx: 2, dy: 0, num: 5, den: 48 }),
            (DiffusionEntry { dx: -2i32, dy: 1, num: 3, den: 48 }),
            (DiffusionEntry { dx: -1i32, dy: 1, num: 5, den: 48 }),
            (DiffusionEntry { dx: 0, dy: 1, num: 7, den: 48 }),
            (DiffusionEntry { dx: 1, dy: 1, num: 5, den: 48 }),
            (DiffusionEntry { dx: 2, dy: 1, num: 3, den: 48 }),
            (DiffusionEntry { dx: -2i32, dy: 2, num: 1, den: 48 }),
            (DiffusionEntry { dx: -1i32, dy: 2, num: 3, den: 48 }),
            (DiffusionEntry { dx: 0, dy: 2, num: 5, den: 48 }),
            (DiffusionEntry { dx: 1, dy: 2, num: 3, den: 48 }),
            (DiffusionEntry { dx: 2, dy: 2, num: 1, den: 48 }),
        ],
        ErrorDiffusionKernel::Stucki => seq![
            (DiffusionEntry { dx: 1, dy: 0, num: 8, den: 42 }),
            (DiffusionEntry { dx: 2, dy: 0, num: 4, den: 42 }),
            (DiffusionEntry { dx: -2i32, dy: 1, num: 2, den: 42 }),
            (DiffusionEntry { dx: -1i32, dy: 1, num: 4, den: 42 }),
            (DiffusionEntry { dx: 0, dy: 1, num: 8, den: 42 }),
            (DiffusionEntry { dx: 1, dy: 1, num: 4, den: 42 }),
            (DiffusionEntry { dx: 2, dy: 1, num: 2, den: 42 }),
            (DiffusionEntry { dx: -2i32, dy: 2, num: 1, den: 42 }),
            (DiffusionEntry { dx: -1i32, dy: 2, num: 2, den: 42 }),
            (DiffusionEntry { dx: 0, dy: 2, num: 4, den: 42 }),
            (DiffusionEntry { dx: 1, dy: 2, num: 2, den: 42 }),
            (DiffusionEntry { dx: 2, dy: 2, num: 1, den: 42 }),
        ],
        ErrorDiffusionKernel::Burkes => seq![
            (DiffusionEntry { dx: 1, dy: 0, num: 8, den: 32 }),
            (DiffusionEntry { dx: 2, dy: 0, num: 4, den: 32 }),
            (DiffusionEntry { dx: -2i32, dy: 1, num: 2, den: 32 }),
            (DiffusionEntry { dx: -1i32, dy: 1, num: 4, den: 32 }),
            (DiffusionEntry { dx: 0, dy: 1, num: 8, den: 32 }),
            (DiffusionEntry { dx: 1, dy: 1, num: 4, den: 32 }),
            (DiffusionEntry { dx: 2, dy: 1, num: 2, den: 32 }),
        ],
        ErrorDiffusionKernel::Sierra3 => seq![
            (DiffusionEntry { dx: 1, dy: 0, num: 5, den: 32 }),
            (DiffusionEntry { dx: 2, dy: 0, num: 3, den: 32 }),
            (DiffusionEntry { dx: -2i32, dy: 1, num: 2, den: 32 }),
            (DiffusionEntry { dx: -1i32, dy: 1, num: 4, den: 32 }),
            (DiffusionEntry { dx: 0, dy: 1, num: 5, den: 32 }),
            (DiffusionEntry { dx: 1, dy: 1, num: 4, den: 32 }),
            (DiffusionEntry { dx: 2, dy: 1, num: 2, den: 32 }),
            (DiffusionEntry { dx: -1i32, dy: 2, num: 2, den: 32 }),
            (DiffusionEntry { dx: 0, dy: 2, num: 3, den: 32 }),
            (DiffusionEntry { dx: 1, dy: 2, num: 2, den: 32 }),
        ],
        ErrorDiffusionKernel::Sierra2 => seq![
            (DiffusionEntry { dx: 1, dy: 0, num: 4, den: 16 }),
            (DiffusionEntry { dx: 2, dy: 0, num: 3, den: 16 }),
            (DiffusionEntry { dx: -2i32, dy: 1, num: 1, den: 16 }),
            (DiffusionEntry { dx: -1i32, dy: 1, num: 2, den: 16 }),
            (DiffusionEntry { dx: 0, dy: 1, num: 3, den: 16 }),
            (DiffusionEntry { dx: 1, dy: 1, num: 2, den: 16 }),
            (DiffusionEntry { dx: 2, dy: 1, num: 1, den: 16 }),
        ],
        ErrorDiffusionKernel::Sierra2_4A => seq![
            (DiffusionEntry { dx: 1, dy: 0, num: 2, den: 4 }),
            (DiffusionEntry { dx: -1i32, dy: 1, num: 1, den: 4 }),
            (DiffusionEntry { dx: 0, dy: 1, num: 1, den: 4 }),
        ],
    }
}

/// A well-formed kernel entry: the offset addresses a pixel visited
/// later in scan order (a row below, or to the right in the same row),
/// and the weight is a fraction in (0, 1].
pub open spec fn entry_wf(e: DiffusionEntry) -> bool {
    &&& e.dy > 0 || (e.dy == 0 && e.dx > 0)
    &&& -2 <= e.dx <= 2
    &&& 0 <= e.dy <= 2
    &&& 0 < e.num <= e.den
    &&& e.den <= 48
}

/// Sum of the weight numerators of a kernel.
pub open spec fn sum_num(s: Seq<DiffusionEntry>) -> int
    decreases s.len(),
{
    if s.len() == 0 {
        0
    } else {
        sum_num(s.drop_last()) + s.last().num
    }
}

/// Every kernel in the catalog is well formed and its weights sum to
/// exactly 1: all entries share one denominator, and the numerators
/// sum to it.
pub proof fn lemma_kernel_weights_sum_to_one(k: ErrorDiffusionKernel)
    ensures
        spec_kernel(k).len() > 0,
        forall|i: int|
            0 <= i < spec_kernel(k).len() ==> entry_wf(#[trigger] spec_kernel(k)[i]),
        forall|i: int|
            0 <= i < spec_kernel(k).len() ==> (#[trigger] spec_kernel(k)[i]).den == spec_kernel(
                k,
            )[0].den,
        sum_num(spec_kernel(k)) == spec_kernel(k)[0].den,
{
    reveal_with_fuel(sum_num, 14);
}

/// Get the error diffusion kernel for the given selector.
pub fn get_diffusion_matrix(kernel: ErrorDiffusionKernel) -> (m: Vec<DiffusionEntry>)
    ensures
        m@ =~= spec_kernel(kernel),
{
    let mut m: Vec<DiffusionEntry> = Vec::new();
    match kernel {
        ErrorDiffusionKernel::FloydSteinberg => {
            m.push(DiffusionEntry { dx: 1, dy: 0, num: 7, den: 16 });
            m.push(DiffusionEntry { dx: -1, dy: 1, num: 3, den: 16 });
            m.push(DiffusionEntry { dx: 0, dy: 1, num: 5, den: 16 });
            m.push(DiffusionEntry { dx: 1, dy: 1, num: 1, den: 16 });
        },
        ErrorDiffusionKernel::FalseFloydSteinberg => {
            m.push(DiffusionEntry { dx: 1, dy: 0, num: 3, den: 8 });
            m.push(DiffusionEntry { dx: 0, dy: 1, num: 3, den: 8 });
            m.push(DiffusionEntry { dx: 1, dy: 1, num: 2, den: 8 });
        },
        ErrorDiffusionKernel::Jarvis => {
            m.push(DiffusionEntry { dx: 1, dy: 0, num: 7, den: 48 });
            m.push(DiffusionEntry { dx: 2, dy: 0, num: 5, den: 48 });
            m.push(DiffusionEntry { dx: -2, dy: 1, num: 3, den: 48 });
            m.push(DiffusionEntry { dx: -1, dy: 1, num: 5, den: 48 });
            m.push(DiffusionEntry { dx: 0, dy: 1, num: 7, den: 48 });
            m.push(DiffusionEntry { dx: 1, dy: 1, num: 5, den: 48 });
            m.push(DiffusionEntry { dx: 2, dy: 1, num: 3, den: 48 });
            m.push(DiffusionEntry { dx: -2, dy: 2, num: 1, den: 48 });
            m.push(DiffusionEntry { dx: -1, dy: 2, num: 3, den: 48 });
            m.push(DiffusionEntry { dx: 0, dy: 2, num: 5, den: 48 });
            m.push(DiffusionEntry { dx: 1, dy: 2, num: 3, den: 48 });
            m.push(DiffusionEntry { dx: 2, dy: 2, num: 1, den: 48 });
        },
        ErrorDiffusionKernel::Stucki => {
            m.push(DiffusionEntry { dx: 1, dy: 0, num: 8, den: 42 });
            m.push(DiffusionEntry { dx: 2, dy: 0, num: 4, den: 42 });
            m.push(DiffusionEntry { dx: -2, dy: 1, num: 2, den: 42 });
            m.push(DiffusionEntry { dx: -1, dy: 1, num: 4, den: 42 });
            m.push(DiffusionEntry { dx: 0, dy: 1, num: 8, den: 42 });
            m.push(DiffusionEntry { dx: 1, dy: 1, num: 4, den: 42 });
            m.push(DiffusionEntry { dx: 2, dy: 1, num: 2, den: 42 });
            m.push(DiffusionEntry { dx: -2, dy: 2, num: 1, den: 42 });
            m.push(DiffusionEntry { dx: -1, dy: 2, num: 2, den: 42 });
            m.push(DiffusionEntry { dx: 0, dy: 2, num: 4, den: 42 });
            m.push(DiffusionEntry { dx: 1, dy: 2, num: 2, den: 42 });
            m.push(DiffusionEntry { dx: 2, dy: 2, num: 1, den: 42 });
        },
        ErrorDiffusionKernel::Burkes => {
            m.push(DiffusionEntry { dx: 1, dy: 0, num: 8, den: 32 });
            m.push(DiffusionEntry { dx: 2, dy: 0, num: 4, den: 32 });
            m.push(DiffusionEntry { dx: -2, dy: 1, num: 2, den: 32 });
            m.push(DiffusionEntry { dx: -1, dy: 1, num: 4, den: 32 });
            m.push(DiffusionEntry { dx: 0, dy: 1, num: 8, den: 32 });
            m.push(DiffusionEntry { dx: 1, dy: 1, num: 4, den: 32 });
            m.push(DiffusionEntry { dx: 2, dy: 1, num: 2, den: 32 });
        },
        ErrorDiffusionKernel::Sierra3 => {
            m.push(DiffusionEntry { dx: 1, dy: 0, num: 5, den: 32 });
            m.push(DiffusionEntry { dx: 2, dy: 0, num: 3, den: 32 });
            m.push(DiffusionEntry { dx: -2, dy: 1, num: 2, den: 32 });
            m.push(DiffusionEntry { dx: -1, dy: 1, num: 4, den: 32 });
            m.push(DiffusionEntry { dx: 0, dy: 1, num: 5, den: 32 });
            m.push(DiffusionEntry { dx: 1, dy: 1, num: 4, den: 32 });
            m.push(DiffusionEntry { dx: 2, dy: 1, num: 2, den: 32 });
            m.push(DiffusionEntry { dx: -1, dy: 2, num: 2, den: 32 });
            m.push(DiffusionEntry { dx: 0, dy: 2, num: 3, den: 32 });
            m.push(DiffusionEntry { dx: 1, dy: 2, num: 2, den: 32 });
        },
        ErrorDiffusionKernel::Sierra2 => {
            m.push(DiffusionEntry { dx: 1, dy: 0, num: 4, den: 16 });
            m.push(DiffusionEntry { dx: 2, dy: 0, num: 3, den: 16 });
            m.push(DiffusionEntry { dx: -2, dy: 1, num: 1, den: 16 });
            m.push(DiffusionEntry { dx: -1, dy: 1, num: 2, den: 16 });
            m.push(DiffusionEntry { dx: 0, dy: 1, num: 3, den: 16 });
            m.push(DiffusionEntry { dx: 1, dy: 1, num: 2, den: 16 });
            m.push(DiffusionEntry { dx: 2, dy: 1, num: 1, den: 16 });
        },
        ErrorDiffusionKernel::Sierra2_4A => {
            m.push(DiffusionEntry { dx: 1, dy: 0, num: 2, den: 4 });
            m.push(DiffusionEntry { dx: -1, dy: 1, num: 1, den: 4 });
            m.push(DiffusionEntry { dx: 0, dy: 1, num: 1, den: 4 });
        },
    }
    m
}

} // verus!
