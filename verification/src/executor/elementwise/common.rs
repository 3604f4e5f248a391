//! What the elementwise planners share: kernels, geometry, checks.

use crate::arith::ceil_div;
use crate::context::VulkanContext;
use crate::dtype::{DType, Scalar};
use crate::error::{outcome, refused, refused_shapes, Error, ErrorView, OpName, Refusal, Role};
use crate::executor::elementwise::pc::PushBlock;
use crate::executor::plan::Executor;
use crate::executor::validation::context_result;
use crate::matmul::resolution::same_shape;
use crate::tensor::{shape_product, Tensor, TensorView};
use vstd::prelude::*;

verus! {

/// Threads per workgroup in every elementwise shader.
pub const WG: u32 = 256;

/// An elementwise kernel.
#[derive(Copy, Clone, Debug, PartialEq, Eq, Structural)]
pub enum Op {
    Softmax,
    RmsNorm,
    LayerNorm,
    RmsNormF16,
    Rope,
    RopeF16,
    RopeScatter,
    RopeScatterToF16,
    Copy,
    Binary,
    BinaryF16,
    CopyToF16,
    CopyF16,
    CopyF16ToF32,
    FlashDh64,
    FlashDh128,
    FlashKv16Dh64,
    FlashKv16Dh128,
    AttnDecodeDh64,
    AttnDecodeKv16Dh64,
    AttnDecodeCombine,
    Argmax,
    EmbedGather,
    PrefillQkvPack,
}

impl Op {
    /// Number of kernels.
    pub const COUNT: usize = 24;

    /// The kernels in build order.
    pub open spec fn listed() -> Seq<Op> {
        seq![
            Op::Softmax,
            Op::RmsNorm,
            Op::LayerNorm,
            Op::RmsNormF16,
            Op::Rope,
            Op::RopeF16,
            Op::RopeScatter,
            Op::RopeScatterToF16,
            Op::Copy,
            Op::Binary,
            Op::BinaryF16,
            Op::CopyToF16,
            Op::CopyF16,
            Op::CopyF16ToF32,
            Op::FlashDh64,
            Op::FlashDh128,
            Op::FlashKv16Dh64,
            Op::FlashKv16Dh128,
            Op::AttnDecodeDh64,
            Op::AttnDecodeKv16Dh64,
            Op::AttnDecodeCombine,
            Op::Argmax,
            Op::EmbedGather,
            Op::PrefillQkvPack,
        ]
    }

    /// The kernels in build order.
    pub fn all() -> (r: Vec<Op>)
        ensures
            r@ == Self::listed(),
            r@.len() == Self::COUNT,
    {
        let all: Vec<Op> = vec![
            Op::Softmax,
            Op::RmsNorm,
            Op::LayerNorm,
            Op::RmsNormF16,
            Op::Rope,
            Op::RopeF16,
            Op::RopeScatter,
            Op::RopeScatterToF16,
            Op::Copy,
            Op::Binary,
            Op::BinaryF16,
            Op::CopyToF16,
            Op::CopyF16,
            Op::CopyF16ToF32,
            Op::FlashDh64,
            Op::FlashDh128,
            Op::FlashKv16Dh64,
            Op::FlashKv16Dh128,
            Op::AttnDecodeDh64,
            Op::AttnDecodeKv16Dh64,
            Op::AttnDecodeCombine,
            Op::Argmax,
            Op::EmbedGather,
            Op::PrefillQkvPack,
        ];
        assert(all@ =~= Self::listed());
        all
    }

    /// File name of the compiled shader, without its ending.
    pub open spec fn shader_of(self) -> &'static str {
        match self {
            Op::Softmax => "op_softmax_f32_row",
            Op::RmsNorm => "op_rmsnorm_f32",
            Op::LayerNorm => "op_rmsnorm_f32",
            Op::RmsNormF16 => "op_rmsnorm_f16",
            Op::Rope => "op_rope_f32",
            Op::RopeF16 => "op_rope_f16",
            Op::RopeScatter => "op_rope_scatter_f32",
            Op::RopeScatterToF16 => "op_rope_scatter_f32_to_f16",
            Op::Copy => "op_copy_strided_f32",
            Op::Binary => "op_binary_f32",
            Op::BinaryF16 => "op_binary_f16",
            Op::CopyToF16 => "op_copy_strided_f32_to_f16",
            Op::CopyF16 => "op_copy_strided_f16",
            Op::CopyF16ToF32 => "op_copy_strided_f16_to_f32",
            Op::FlashDh64 => "op_flash_attention_dh64",
            Op::FlashDh128 => "op_flash_attention_dh128",
            Op::FlashKv16Dh64 => "op_flash_attention_kv16_dh64",
            Op::FlashKv16Dh128 => "op_flash_attention_kv16_dh128",
            Op::AttnDecodeDh64 => "op_attn_decode_dh64",
            Op::AttnDecodeKv16Dh64 => "op_attn_decode_kv16_dh64",
            Op::AttnDecodeCombine => "op_attn_decode_combine",
            Op::Argmax => "op_argmax_f32",
            Op::EmbedGather => "op_embed_gather",
            Op::PrefillQkvPack => "op_prefill_qkv_pack",
        }
    }

    /// File name of the compiled shader, without its ending.
    pub fn shader(self) -> (r: &'static str)
        ensures
            r == self.shader_of(),
    {
        match self {
            Op::Softmax => "op_softmax_f32_row",
            Op::RmsNorm => "op_rmsnorm_f32",
            Op::LayerNorm => "op_rmsnorm_f32",
            Op::RmsNormF16 => "op_rmsnorm_f16",
            Op::Rope => "op_rope_f32",
            Op::RopeF16 => "op_rope_f16",
            Op::RopeScatter => "op_rope_scatter_f32",
            Op::RopeScatterToF16 => "op_rope_scatter_f32_to_f16",
            Op::Copy => "op_copy_strided_f32",
            Op::Binary => "op_binary_f32",
            Op::BinaryF16 => "op_binary_f16",
            Op::CopyToF16 => "op_copy_strided_f32_to_f16",
            Op::CopyF16 => "op_copy_strided_f16",
            Op::CopyF16ToF32 => "op_copy_strided_f16_to_f32",
            Op::FlashDh64 => "op_flash_attention_dh64",
            Op::FlashDh128 => "op_flash_attention_dh128",
            Op::FlashKv16Dh64 => "op_flash_attention_kv16_dh64",
            Op::FlashKv16Dh128 => "op_flash_attention_kv16_dh128",
            Op::AttnDecodeDh64 => "op_attn_decode_dh64",
            Op::AttnDecodeKv16Dh64 => "op_attn_decode_kv16_dh64",
            Op::AttnDecodeCombine => "op_attn_decode_combine",
            Op::Argmax => "op_argmax_f32",
            Op::EmbedGather => "op_embed_gather",
            Op::PrefillQkvPack => "op_prefill_qkv_pack",
        }
    }

    /// The specialization constant, where the shader has one.
    pub open spec fn constant_of(self) -> Option<u32> {
        match self {
            Op::Softmax => None,
            Op::RmsNorm => Some(0),
            Op::LayerNorm => Some(1),
            Op::RmsNormF16 => Some(0),
            Op::Rope => None,
            Op::RopeF16 => None,
            Op::RopeScatter => None,
            Op::RopeScatterToF16 => None,
            Op::Copy => None,
            Op::Binary => None,
            Op::BinaryF16 => None,
            Op::CopyToF16 => None,
            Op::CopyF16 => None,
            Op::CopyF16ToF32 => None,
            Op::FlashDh64 => None,
            Op::FlashDh128 => None,
            Op::FlashKv16Dh64 => None,
            Op::FlashKv16Dh128 => None,
            Op::AttnDecodeDh64 => None,
            Op::AttnDecodeKv16Dh64 => None,
            Op::AttnDecodeCombine => None,
            Op::Argmax => None,
            Op::EmbedGather => None,
            Op::PrefillQkvPack => None,
        }
    }

    /// The specialization constant, where the shader has one.
    pub fn constant(self) -> (r: Option<u32>)
        ensures
            r == self.constant_of(),
    {
        match self {
            Op::Softmax => None,
            Op::RmsNorm => Some(0),
            Op::LayerNorm => Some(1),
            Op::RmsNormF16 => Some(0),
            Op::Rope => None,
            Op::RopeF16 => None,
            Op::RopeScatter => None,
            Op::RopeScatterToF16 => None,
            Op::Copy => None,
            Op::Binary => None,
            Op::BinaryF16 => None,
            Op::CopyToF16 => None,
            Op::CopyF16 => None,
            Op::CopyF16ToF32 => None,
            Op::FlashDh64 => None,
            Op::FlashDh128 => None,
            Op::FlashKv16Dh64 => None,
            Op::FlashKv16Dh128 => None,
            Op::AttnDecodeDh64 => None,
            Op::AttnDecodeKv16Dh64 => None,
            Op::AttnDecodeCombine => None,
            Op::Argmax => None,
            Op::EmbedGather => None,
            Op::PrefillQkvPack => None,
        }
    }

    /// The name in diagnostics.
    pub open spec fn label_of(self) -> &'static str {
        match self {
            Op::Softmax => "op softmax",
            Op::RmsNorm => "op rmsnorm",
            Op::LayerNorm => "op layernorm",
            Op::RmsNormF16 => "op rmsnorm f16",
            Op::Rope => "op rope",
            Op::RopeF16 => "op rope f16",
            Op::RopeScatter => "op rope_scatter",
            Op::RopeScatterToF16 => "op rope_scatter f32->f16",
            Op::Copy => "op copy_strided",
            Op::Binary => "op binary",
            Op::BinaryF16 => "op binary f16",
            Op::CopyToF16 => "op copy_strided f32->f16",
            Op::CopyF16 => "op copy_strided f16->f16",
            Op::CopyF16ToF32 => "op copy_strided f16->f32",
            Op::FlashDh64 => "op flash_attention dh64",
            Op::FlashDh128 => "op flash_attention dh128",
            Op::FlashKv16Dh64 => "op flash_attention kv16 dh64",
            Op::FlashKv16Dh128 => "op flash_attention kv16 dh128",
            Op::AttnDecodeDh64 => "op attn_decode dh64",
            Op::AttnDecodeKv16Dh64 => "op attn_decode kv16 dh64",
            Op::AttnDecodeCombine => "op attn_decode combine",
            Op::Argmax => "op argmax",
            Op::EmbedGather => "op embed_gather",
            Op::PrefillQkvPack => "op prefill_qkv_pack",
        }
    }

    /// The name in diagnostics.
    pub fn label(self) -> (r: &'static str)
        ensures
            r == self.label_of(),
    {
        match self {
            Op::Softmax => "op softmax",
            Op::RmsNorm => "op rmsnorm",
            Op::LayerNorm => "op layernorm",
            Op::RmsNormF16 => "op rmsnorm f16",
            Op::Rope => "op rope",
            Op::RopeF16 => "op rope f16",
            Op::RopeScatter => "op rope_scatter",
            Op::RopeScatterToF16 => "op rope_scatter f32->f16",
            Op::Copy => "op copy_strided",
            Op::Binary => "op binary",
            Op::BinaryF16 => "op binary f16",
            Op::CopyToF16 => "op copy_strided f32->f16",
            Op::CopyF16 => "op copy_strided f16->f16",
            Op::CopyF16ToF32 => "op copy_strided f16->f32",
            Op::FlashDh64 => "op flash_attention dh64",
            Op::FlashDh128 => "op flash_attention dh128",
            Op::FlashKv16Dh64 => "op flash_attention kv16 dh64",
            Op::FlashKv16Dh128 => "op flash_attention kv16 dh128",
            Op::AttnDecodeDh64 => "op attn_decode dh64",
            Op::AttnDecodeKv16Dh64 => "op attn_decode kv16 dh64",
            Op::AttnDecodeCombine => "op attn_decode combine",
            Op::Argmax => "op argmax",
            Op::EmbedGather => "op embed_gather",
            Op::PrefillQkvPack => "op prefill_qkv_pack",
        }
    }
}

/// A flash-attention kernel of the second generation of cooperative matrices.
#[derive(Copy, Clone, Debug, PartialEq, Eq, Structural)]
pub enum Cm2Op {
    FlashDh64,
    FlashDh128,
    FlashKv16Dh64,
    FlashKv16Dh128,
    FlashKv16Io16Dh64,
}

impl Cm2Op {
    /// Number of kernels.
    pub const COUNT: usize = 5;

    /// The kernels in build order.
    pub open spec fn listed() -> Seq<Cm2Op> {
        seq![
            Cm2Op::FlashDh64,
            Cm2Op::FlashDh128,
            Cm2Op::FlashKv16Dh64,
            Cm2Op::FlashKv16Dh128,
            Cm2Op::FlashKv16Io16Dh64,
        ]
    }

    /// The kernels in build order.
    pub fn all() -> (r: Vec<Cm2Op>)
        ensures
            r@ == Self::listed(),
            r@.len() == Self::COUNT,
    {
        let all: Vec<Cm2Op> = vec![
            Cm2Op::FlashDh64,
            Cm2Op::FlashDh128,
            Cm2Op::FlashKv16Dh64,
            Cm2Op::FlashKv16Dh128,
            Cm2Op::FlashKv16Io16Dh64,
        ];
        assert(all@ =~= Self::listed());
        all
    }

    /// File name of the compiled shader, without its ending.
    pub open spec fn shader_of(self) -> &'static str {
        match self {
            Cm2Op::FlashDh64 => "attention_flash_cm2_dh64",
            Cm2Op::FlashDh128 => "attention_flash_cm2_dh128",
            Cm2Op::FlashKv16Dh64 => "attention_flash_cm2_kv16_dh64",
            Cm2Op::FlashKv16Dh128 => "attention_flash_cm2_kv16_dh128",
            Cm2Op::FlashKv16Io16Dh64 => "attention_flash_cm2_kv16_io16_dh64",
        }
    }

    /// File name of the compiled shader, without its ending.
    pub fn shader(self) -> (r: &'static str)
        ensures
            r == self.shader_of(),
    {
        match self {
            Cm2Op::FlashDh64 => "attention_flash_cm2_dh64",
            Cm2Op::FlashDh128 => "attention_flash_cm2_dh128",
            Cm2Op::FlashKv16Dh64 => "attention_flash_cm2_kv16_dh64",
            Cm2Op::FlashKv16Dh128 => "attention_flash_cm2_kv16_dh128",
            Cm2Op::FlashKv16Io16Dh64 => "attention_flash_cm2_kv16_io16_dh64",
        }
    }

    /// The specialization constant, where the shader has one.
    pub open spec fn constant_of(self) -> Option<u32> {
        match self {
            Cm2Op::FlashDh64 => None,
            Cm2Op::FlashDh128 => None,
            Cm2Op::FlashKv16Dh64 => None,
            Cm2Op::FlashKv16Dh128 => None,
            Cm2Op::FlashKv16Io16Dh64 => None,
        }
    }

    /// The specialization constant, where the shader has one.
    pub fn constant(self) -> (r: Option<u32>)
        ensures
            r == self.constant_of(),
    {
        match self {
            Cm2Op::FlashDh64 => None,
            Cm2Op::FlashDh128 => None,
            Cm2Op::FlashKv16Dh64 => None,
            Cm2Op::FlashKv16Dh128 => None,
            Cm2Op::FlashKv16Io16Dh64 => None,
        }
    }

    /// The name in diagnostics.
    pub open spec fn label_of(self) -> &'static str {
        match self {
            Cm2Op::FlashDh64 => "op flash_attention cm2 dh64",
            Cm2Op::FlashDh128 => "op flash_attention cm2 dh128",
            Cm2Op::FlashKv16Dh64 => "op flash_attention cm2 kv16 dh64",
            Cm2Op::FlashKv16Dh128 => "op flash_attention cm2 kv16 dh128",
            Cm2Op::FlashKv16Io16Dh64 => "op flash_attention cm2 kv16 io16 dh64",
        }
    }

    /// The name in diagnostics.
    pub fn label(self) -> (r: &'static str)
        ensures
            r == self.label_of(),
    {
        match self {
            Cm2Op::FlashDh64 => "op flash_attention cm2 dh64",
            Cm2Op::FlashDh128 => "op flash_attention cm2 dh128",
            Cm2Op::FlashKv16Dh64 => "op flash_attention cm2 kv16 dh64",
            Cm2Op::FlashKv16Dh128 => "op flash_attention cm2 kv16 dh128",
            Cm2Op::FlashKv16Io16Dh64 => "op flash_attention cm2 kv16 io16 dh64",
        }
    }
}

/// The kernel of an elementwise dispatch.
#[derive(Copy, Clone, Debug, PartialEq, Eq, Structural)]
pub enum ElementwiseKernel {
    Simt(Op),
    Cm2(Cm2Op),
    GemvChain,
}

/// A planned elementwise dispatch.
#[derive(Copy, Clone, Debug)]
pub struct ElementwiseDispatch {
    pub kernel: ElementwiseKernel,
    pub push: PushBlock,
    pub groups_x: u32,
    pub groups_y: u32,
}

/// Row-softmax masking. Masked columns store exactly zero, so that attention
/// over a padded cache stays correct.
#[derive(Copy, Clone, Debug, PartialEq, Eq, Structural)]
pub enum SoftmaxMask {
    /// Every column participates.
    Full,
    /// Columns from `valid` on are masked.
    Prefix { valid: u32 },
    /// Row `i` of each `rows_per_group` block sees
    /// `prefix + (i % rows_per_group) + 1` columns.
    Causal { prefix: u32, rows_per_group: u32 },
}

/// Rotary-embedding geometry.
#[derive(Copy, Clone, Debug, PartialEq, Eq, Structural)]
pub struct RopeDesc {
    pub heads: u32,
    pub head_dim: u32,
    /// Rotated lanes per head vector (even, at most `head_dim`); the lanes
    /// behind it pass through.
    pub rot_dim: u32,
    /// Absolute position of the first token in the input.
    pub pos_base: u32,
    /// Device address of a position cell, or 0. The shader then adds the
    /// cell's value to `pos_base` at execution time; only `pos_base` is
    /// validated.
    pub pos_addr: u64,
}

impl Default for RopeDesc {
    fn default() -> (r: Self)
        ensures
            r == (RopeDesc { heads: 0, head_dim: 0, rot_dim: 0, pos_base: 0, pos_addr: 0 }),
    {
        RopeDesc { heads: 0, head_dim: 0, rot_dim: 0, pos_base: 0, pos_addr: 0 }
    }
}

/// Destination of a fused rotation and scatter: element `(token, head, dim)`
/// goes to `dst_offset + token*dst_strides[0] + head*dst_strides[1] +
/// dim*dst_strides[2]`.
#[derive(Copy, Clone, Debug)]
pub struct RopeScatterDesc {
    pub dst_offset: u32,
    /// Element strides per token, head and dim.
    pub dst_strides: [u32; 3],
    /// `dst_offset` advance per indirect position.
    pub pos_scale: u32,
}

/// Fused causal-attention geometry. Query row `i` attends to positions below
/// `min(kv_len, pos_base + i + 1)`.
#[derive(Copy, Clone, Debug, PartialEq, Eq, Structural)]
pub struct FlashAttentionDesc {
    /// Valid positions in the caches.
    pub kv_len: u32,
    /// Absolute position of query row 0.
    pub pos_base: u32,
    /// `1/sqrt(dh)` for standard attention.
    pub scale: Scalar,
    /// `Some(H)` where `q` is token-major: `[T, H*dh]` or `[T, H, dh]`. Else
    /// it is head-major `[H, T, dh]`. `out` follows `q` unless
    /// `out_token_major_heads` is set.
    pub token_major_heads: Option<u32>,
    /// `Some(H)` writes `out` token-major, whatever `q` is.
    pub out_token_major_heads: Option<u32>,
}

/// Geometry of the prefill QKV pack: Q into head-major `[H, T, dh]`, K into
/// `[H_kv, dh, T_max]` and V into `[H_kv, T_max, dh]`, all from one
/// `[T, H*dh + 2*H_kv*dh]` row.
#[derive(Copy, Clone, Debug, PartialEq, Eq, Structural)]
pub struct PrefillQkvPackDesc {
    pub heads: u32,
    pub kv_heads: u32,
    pub head_dim: u32,
    /// Even, at most `head_dim`; the lanes behind it pass through.
    pub rot_dim: u32,
    /// Absolute position of token 0.
    pub pos_base: u32,
}

/// Decode-attention geometry: one query row per head attends to the `kv_len`
/// valid cache positions.
#[derive(Copy, Clone, Debug, PartialEq, Eq, Structural)]
pub struct AttnDecodeDesc {
    /// Valid positions in the caches, at least 1.
    pub kv_len: u32,
    /// `1/sqrt(dh)` for standard attention.
    pub scale: Scalar,
    /// Device address of a position cell, or 0. The effective length is then
    /// `kv_len` plus the cell's value, and the grid is the fixed largest one.
    pub pos_addr: u64,
}

/// Most chunks of decode attention.
pub const ATTN_DECODE_MAX_CHUNKS: u32 = 32;

/// Chunks of a decode-attention dispatch: about thirty-two positions each,
/// but at least eight and at most the largest number.
pub open spec fn decode_chunks(kv_len: u32) -> int {
    let chunks = ceil_div(kv_len as int, 32);
    if chunks < 8 {
        8
    } else if chunks > ATTN_DECODE_MAX_CHUNKS {
        ATTN_DECODE_MAX_CHUNKS as int
    } else {
        chunks
    }
}

/// Chunks of a decode-attention dispatch.
pub fn attn_decode_num_chunks(kv_len: u32) -> (r: u32)
    ensures
        r == decode_chunks(kv_len),
        8 <= r <= ATTN_DECODE_MAX_CHUNKS,
{
    let chunks: u32 = crate::arith::div_ceil(kv_len, 32);
    if chunks < 8 {
        8
    } else if chunks > ATTN_DECODE_MAX_CHUNKS {
        ATTN_DECODE_MAX_CHUNKS
    } else {
        chunks
    }
}

/// A binary elementwise operator.
#[derive(Copy, Clone, Debug, PartialEq, Eq, Structural)]
pub enum BinaryOp {
    /// `out = a + beta * b`.
    AddScaled { beta: Scalar },
    /// `out = silu(a) * b`.
    SiluMul,
}

/// Strided-copy geometry: for every `(x, y, z)` in `extent`, element
/// `src_offset + x*src_strides[0] + y*src_strides[1] + z*src_strides[2]` goes
/// to the equivalent destination index.
#[derive(Copy, Clone, Debug)]
pub struct CopyDesc {
    pub extent: [u32; 3],
    pub src_offset: u32,
    pub src_strides: [u32; 3],
    pub dst_offset: u32,
    pub dst_strides: [u32; 3],
    /// Device address of a position cell, or 0: the destination offset then
    /// advances by the cell's value times `pos_scale`. Only `dst_offset` is
    /// validated.
    pub pos_addr: u64,
    /// `dst_offset` advance per indirect position.
    pub pos_scale: u32,
}

/// A dispatch within the device's limits. Elementwise kernels need buffer
/// addresses.
pub open spec fn planned(
    ctx: VulkanContext,
    kernel: ElementwiseKernel,
    push: PushBlock,
    gx: u32,
    gy: u32,
) -> Result<ElementwiseDispatch, ErrorView> {
    if !ctx.buffer_device_address_enabled {
        Err(refused(Refusal::ElementwiseNeedsAddresses))
    } else if gx > ctx.max_groups_x || gy > ctx.max_groups_y {
        Err(
            refused(
                Refusal::ElementwiseGrid {
                    gx,
                    gy,
                    max_x: ctx.max_groups_x,
                    max_y: ctx.max_groups_y,
                },
            ),
        )
    } else {
        Ok(ElementwiseDispatch { kernel, push, groups_x: gx, groups_y: gy })
    }
}

/// A tensor on the device, stored as f32.
pub open spec fn f32_result(ctx: VulkanContext, tensor: TensorView, op: OpName, role: Role) -> Result<
    (),
    ErrorView,
> {
    if let Err(e) = context_result(ctx, tensor, role) {
        Err(e)
    } else if tensor.dtype != DType::F32 {
        Err(refused(Refusal::NotF32 { op, role }))
    } else {
        Ok(())
    }
}

/// Input and output on the device and stored alike; says whether as f16.
pub open spec fn io_result(ctx: VulkanContext, op: OpName, input: TensorView, output: TensorView) -> Result<
    bool,
    ErrorView,
> {
    if let Err(e) = context_result(ctx, input, Role::Input) {
        Err(e)
    } else if let Err(e) = context_result(ctx, output, Role::Output) {
        Err(e)
    } else if input.dtype != output.dtype {
        Err(refused(Refusal::StorageMismatch { op, input: input.dtype, output: output.dtype }))
    } else {
        Ok(input.dtype == DType::F16)
    }
}

/// Input and output of the same shape.
pub open spec fn shape_result(op: OpName, input: TensorView, output: TensorView) -> Result<(), ErrorView> {
    if input.shape != output.shape {
        Err(refused_shapes(Refusal::OutputShape { op }, output.shape, input.shape))
    } else {
        Ok(())
    }
}

/// A tensor as a stack of rows over its last dimension.
pub open spec fn rows_result(tensor: TensorView, op: OpName) -> Result<(u32, u32), ErrorView> {
    let rows = tensor.len() as int / tensor.shape.last() as int;
    if rows > u32::MAX {
        Err(refused(Refusal::RowCount { op, row_count: rows as u64 }))
    } else {
        Ok((rows as u32, tensor.shape.last()))
    }
}

/// `(rows, cols)` of a tensor as a stack of rows over its last dimension.
pub fn rows_cols(tensor: &Tensor, op: OpName) -> (r: Result<(u32, u32), Error>)
    ensures
        outcome(r) == rows_result(tensor@, op),
        r matches Ok((rows, cols)) ==> rows * cols == tensor@.len() && cols > 0,
{
    let len: u64 = tensor.len();
    let shape: &[u32] = tensor.shape();
    let cols: u32 = shape[shape.len() - 1];
    assert(cols == tensor@.shape.last());
    assert(tensor@.shape[tensor@.shape.len() - 1] != 0);
    let rows: u64 = len / cols as u64;
    if rows > u32::MAX as u64 {
        return Err(Error::new(Refusal::RowCount { op, row_count: rows }));
    }
    proof {
        let front = shape_product(tensor@.shape.drop_last()) as int;
        assert(len == front * cols);
        vstd::arithmetic::div_mod::lemma_div_multiples_vanish(front, cols as int);
        assert(front * cols == cols * front) by (nonlinear_arith);
        vstd::arithmetic::div_mod::lemma_fundamental_div_mod_converse(len as int, cols as int, front, 0);
    }
    Ok((rows as u32, cols))
}

impl Executor {
    /// A tensor on the device, stored as f32.
    pub fn ensure_f32(&self, tensor: &Tensor, op: OpName, role: Role) -> (r: Result<(), Error>)
        ensures
            outcome(r) == f32_result(self@.ctx, tensor@, op, role),
    {
        if let Err(e) = self.validate_tensor_context(tensor, role) {
            return Err(e);
        }
        if tensor.dtype() != DType::F32 {
            return Err(Error::new(Refusal::NotF32 { op, role }));
        }
        Ok(())
    }

    /// Input and output on the device and stored alike; says whether as f16.
    pub fn io_dtype_f16(&self, op: OpName, input: &Tensor, output: &Tensor) -> (r: Result<bool, Error>)
        ensures
            outcome(r) == io_result(self@.ctx, op, input@, output@),
    {
        if let Err(e) = self.validate_tensor_context(input, Role::Input) {
            return Err(e);
        }
        if let Err(e) = self.validate_tensor_context(output, Role::Output) {
            return Err(e);
        }
        if input.dtype() != output.dtype() {
            return Err(
                Error::new(
                    Refusal::StorageMismatch { op, input: input.dtype(), output: output.dtype() },
                ),
            );
        }
        Ok(input.dtype() == DType::F16)
    }

    /// Input and output of the same shape.
    pub fn ensure_same_shape(op: OpName, input: &Tensor, output: &Tensor) -> (r: Result<(), Error>)
        ensures
            outcome(r) == shape_result(op, input@, output@),
    {
        if !same_shape(input.shape(), output.shape()) {
            return Err(
                Error::with_shapes(Refusal::OutputShape { op }, output.shape(), input.shape()),
            );
        }
        Ok(())
    }

    /// A dispatch within the device's limits.
    pub fn plan_elementwise(&self, kernel: ElementwiseKernel, push: PushBlock, gx: u32, gy: u32) -> (r:
        Result<ElementwiseDispatch, Error>)
        ensures
            outcome(r) == planned(self@.ctx, kernel, push, gx, gy),
    {
        let ctx: &VulkanContext = self.context();
        if !ctx.buffer_device_address_enabled {
            return Err(Error::new(Refusal::ElementwiseNeedsAddresses));
        }
        if gx > ctx.max_groups_x || gy > ctx.max_groups_y {
            return Err(
                Error::new(
                    Refusal::ElementwiseGrid {
                        gx,
                        gy,
                        max_x: ctx.max_groups_x,
                        max_y: ctx.max_groups_y,
                    },
                ),
            );
        }
        Ok(ElementwiseDispatch { kernel, push, groups_x: gx, groups_y: gy })
    }
}

} // verus!
