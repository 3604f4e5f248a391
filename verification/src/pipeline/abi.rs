//! What the host and the matmul shaders agree on.

use crate::dtype::Scalar;
use vstd::prelude::*;

verus! {

/// `flags` bit 1: the row-GEMV kernels fold an RMSNorm of the A row into
/// the product (`bias_ptr` carries the norm weight, `beta` eps). Bit 0 is
/// the accumulate flag; bits 16..31 carry split-K counts.
pub const MATMUL_FLAG_NORM_A: u32 = 2;

/// Push constants for the matmul shader, field for field as the shader
/// declares them.
///
/// The pointers are device addresses. Kernels that bind descriptors ignore
/// them.
#[derive(Copy, Clone, Debug, PartialEq, Eq, Structural)]
pub struct MatmulPushConstants {
    pub m: u32,
    pub n: u32,
    pub k: u32,
    pub batch_stride_a: u32,
    pub batch_stride_b: u32,
    pub batch_stride_c: u32,
    pub flags: u32,
    pub alpha: Scalar,
    pub a_ptr: u64,
    pub b_ptr: u64,
    pub c_ptr: u64,
    /// Epilogue residual / gate operand (same shape and layout as C), or 0.
    pub d_ptr: u64,
    /// Epilogue bias data, either broadcast `[N]` or batched `[B, N]`, or 0.
    pub bias_ptr: u64,
    /// Scale for the `+= beta * D` residual epilogue.
    pub beta: Scalar,
    /// Bias elements between batches; zero means broadcast one `[N]` row.
    pub bias_batch_stride: u32,
    /// Fused-store geometry; all zero where there is none.
    pub store_pos_base: u32,
    pub store_pos_scale: u32,
    pub store_stride_head: u32,
    pub store_stride_dim: u32,
    pub store_head_dim: u32,
    pub store_pos_ptr: u64,
    pub store_table_ptr: u64,
    pub store_dst_ptr: u64,
}

/// Per-call pipeline specialization: each flag lets the shader fold out the
/// corresponding branches.
#[derive(Copy, Clone, Debug, PartialEq, Eq, Structural, Hash)]
pub struct KernelVariant {
    /// `C += alpha*A@B` when true, `C = alpha*A@B` when false.
    pub accumulate: bool,
    /// alpha is one, so the shader skips the multiply.
    pub alpha_is_one: bool,
    /// M and N are multiples of the tile size, so the shader drops all
    /// bounds checks.
    pub interior_only: bool,
    /// K is a multiple of the K tile, so the shader drops the tail strip.
    pub k_multiple: bool,
}

impl KernelVariant {
    /// Number of specialization variants per kernel.
    pub const COUNT: usize = 16;

    /// Number of variants that are correct for every shape, built eagerly.
    pub const FALLBACK_COUNT: usize = 4;

    /// The flags as the digits of a binary number, `accumulate` lowest.
    pub open spec fn index_of(self) -> int {
        (if self.accumulate { 1int } else { 0 }) + (if self.alpha_is_one { 2int } else { 0 })
            + (if self.interior_only { 4int } else { 0 }) + (if self.k_multiple { 8int } else { 0 })
    }

    /// Position of this variant among the [`KernelVariant::COUNT`].
    pub fn index(self) -> (r: usize)
        ensures
            r == self.index_of(),
            r < KernelVariant::COUNT,
    {
        let a: usize = if self.accumulate { 1 } else { 0 };
        let b: usize = if self.alpha_is_one { 2 } else { 0 };
        let c: usize = if self.interior_only { 4 } else { 0 };
        let d: usize = if self.k_multiple { 8 } else { 0 };
        a + b + c + d
    }

    /// The variant with the low four binary digits of `idx` as its flags.
    pub open spec fn at_index(idx: int) -> Self {
        KernelVariant {
            accumulate: idx % 2 == 1,
            alpha_is_one: idx / 2 % 2 == 1,
            interior_only: idx / 4 % 2 == 1,
            k_multiple: idx / 8 % 2 == 1,
        }
    }

    /// The variant with the low four binary digits of `idx` as its flags.
    pub fn from_index(idx: usize) -> (r: Self)
        ensures
            r == Self::at_index(idx as int),
    {
        KernelVariant {
            accumulate: idx % 2 == 1,
            alpha_is_one: idx / 2 % 2 == 1,
            interior_only: idx / 4 % 2 == 1,
            k_multiple: idx / 8 % 2 == 1,
        }
    }

    /// This variant without its alignment assumptions.
    pub open spec fn without_alignment(self) -> Self {
        KernelVariant { interior_only: false, k_multiple: false, ..self }
    }

    /// The variant that is correct for every shape with the same
    /// arithmetic.
    pub fn fallback(self) -> (r: Self)
        ensures
            r == self.without_alignment(),
    {
        KernelVariant {
            accumulate: self.accumulate,
            alpha_is_one: self.alpha_is_one,
            interior_only: false,
            k_multiple: false,
        }
    }
}

/// Variants and the numbers below [`KernelVariant::COUNT`] correspond one to
/// one.
pub proof fn variant_index_round_trip(variant: KernelVariant, idx: int)
    requires
        0 <= idx < KernelVariant::COUNT,
    ensures
        0 <= variant.index_of() < KernelVariant::COUNT,
        KernelVariant::at_index(variant.index_of()) == variant,
        KernelVariant::at_index(idx).index_of() == idx,
{
}

/// The fallbacks are exactly the first [`KernelVariant::FALLBACK_COUNT`]
/// variants, and taking the fallback twice changes nothing.
pub proof fn fallback_comes_first(variant: KernelVariant)
    ensures
        variant.without_alignment().index_of() == variant.index_of() % KernelVariant::FALLBACK_COUNT as int,
        variant.without_alignment() == variant <==> variant.index_of() < KernelVariant::FALLBACK_COUNT,
        variant.without_alignment().without_alignment() == variant.without_alignment(),
{
}

/// Specialization values for the fused-epilogue and fused-store constants.
#[derive(Copy, Clone, Debug, PartialEq, Eq, Structural, Hash)]
pub struct EpilogueKey {
    /// Add a shared `[N]` or batched `[B, N]` bias.
    pub bias: bool,
    /// 0=none, 1=relu, 2=silu, 3=gelu(tanh).
    pub activation: u32,
    /// 0=none, 1=`+beta*D`, 2=`*D`.
    pub binary: u32,
    /// 0=none, 1=rope, 2=scatter, 3=rope and scatter.
    pub store_mode: u32,
    /// The scatter destination is f16.
    pub store_f16: bool,
}

impl Default for EpilogueKey {
    fn default() -> (r: Self)
        ensures
            r == Self::none(),
    {
        EpilogueKey { bias: false, activation: 0, binary: 0, store_mode: 0, store_f16: false }
    }
}

impl EpilogueKey {
    /// The specialization that fuses nothing.
    pub open spec fn none() -> Self {
        EpilogueKey { bias: false, activation: 0, binary: 0, store_mode: 0, store_f16: false }
    }

    /// Whether nothing is fused.
    pub fn is_none(&self) -> (r: bool)
        ensures
            r == (*self == Self::none()),
    {
        !self.bias && self.activation == 0 && self.binary == 0 && self.store_mode == 0
            && !self.store_f16
    }
}

} // verus!
