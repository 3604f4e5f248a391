//! Softmax, norms, rotary embedding, copies, binary operations, argmax and
//! embedding gather.

use crate::arith::{ceil_div, div_ceil, lemma_mul_u32, mul3, mul_wide};
use crate::context::VulkanContext;
use crate::dtype::{DType, Scalar};
use crate::error::{outcome, refused, refused_shapes, Error, ErrorView, OpName, Refusal, Role};
use crate::executor::cells::HostU32Buffer;
use crate::executor::elementwise::common::{
    f32_result, io_result, planned, rows_cols, rows_result, shape_result, BinaryOp, CopyDesc,
    ElementwiseDispatch, ElementwiseKernel, Op, RopeDesc, RopeScatterDesc, SoftmaxMask, WG,
};
use crate::executor::elementwise::pc::{
    ArgmaxPc, BinaryPc, CopyPc, EmbedGatherPc, NormPc, PushBlock, RopePc, RopeScatterPc, SoftmaxPc,
};
use crate::executor::plan::Executor;
use crate::executor::validation::context_result;
use crate::tensor::{Buffer, Tensor, TensorView};
use vstd::prelude::*;

verus! {

/// How a mask reaches the shader: the columns of the first row, the rows per
/// group, and whether rows see one more column each.
pub open spec fn mask_result(mask: SoftmaxMask, rows: u32, cols: u32) -> Result<
    (u32, u32, u32),
    ErrorView,
> {
    match mask {
        SoftmaxMask::Full => Ok((cols, 1, 0)),
        SoftmaxMask::Prefix { valid } => Ok((if valid < cols { valid } else { cols }, 1, 0)),
        SoftmaxMask::Causal { prefix, rows_per_group } => if rows_per_group == 0 || rows
            % rows_per_group != 0 {
            Err(refused(Refusal::RowsPerGroup { rows_per_group, rows }))
        } else {
            Ok((prefix, rows_per_group, 1))
        },
    }
}

/// The dispatch of a row softmax: one workgroup per row.
pub open spec fn softmax_plan(
    ctx: VulkanContext,
    input: TensorView,
    output: TensorView,
    scale: Scalar,
    mask: SoftmaxMask,
) -> Result<ElementwiseDispatch, ErrorView> {
    let op = OpName::SoftmaxRows;
    if let Err(e) = f32_result(ctx, input, op, Role::Input) {
        Err(e)
    } else if let Err(e) = f32_result(ctx, output, op, Role::Output) {
        Err(e)
    } else if let Err(e) = shape_result(op, input, output) {
        Err(e)
    } else {
        match rows_result(input, op) {
            Err(e) => Err(e),
            Ok((rows, cols)) => match mask_result(mask, rows, cols) {
                Err(e) => Err(e),
                Ok((valid_base, rows_per_group, causal)) => planned(
                    ctx,
                    ElementwiseKernel::Simt(Op::Softmax),
                    PushBlock::Softmax(
                        SoftmaxPc {
                            rows,
                            cols,
                            valid_base,
                            rows_per_group,
                            causal,
                            scale,
                            in_ptr: input.buffer.address,
                            out_ptr: output.buffer.address,
                        },
                    ),
                    rows,
                    1,
                ),
            },
        }
    }
}

/// The kernel of a norm.
pub open spec fn norm_kernel(layer: bool, io_f16: bool) -> Op {
    if layer {
        Op::LayerNorm
    } else if io_f16 {
        Op::RmsNormF16
    } else {
        Op::RmsNorm
    }
}

/// The dispatch of an RMSNorm, or of a LayerNorm where there is a bias: one
/// workgroup per row.
pub open spec fn norm_plan(
    ctx: VulkanContext,
    op: OpName,
    input: TensorView,
    weight: TensorView,
    bias: Option<TensorView>,
    output: TensorView,
    eps: Scalar,
) -> Result<ElementwiseDispatch, ErrorView> {
    match io_result(ctx, op, input, output) {
        Err(e) => Err(e),
        Ok(io_f16) => if let Err(e) = f32_result(ctx, weight, op, Role::Weight) {
            Err(e)
        } else if bias is Some && f32_result(ctx, bias->0, op, Role::Bias) is Err {
            Err(f32_result(ctx, bias->0, op, Role::Bias)->Err_0)
        } else if io_f16 && bias is Some {
            Err(refused(Refusal::F16LayerNorm { op }))
        } else if let Err(e) = shape_result(op, input, output) {
            Err(e)
        } else {
            match rows_result(input, op) {
                Err(e) => Err(e),
                Ok((rows, cols)) => if weight.len() != cols {
                    Err(
                        refused(
                            Refusal::NormLength {
                                op,
                                role: Role::Weight,
                                len: weight.len() as u64,
                                cols,
                            },
                        ),
                    )
                } else if bias is Some && bias->0.len() != cols {
                    Err(
                        refused(
                            Refusal::NormLength {
                                op,
                                role: Role::Bias,
                                len: bias->0.len() as u64,
                                cols,
                            },
                        ),
                    )
                } else {
                    planned(
                        ctx,
                        ElementwiseKernel::Simt(norm_kernel(bias is Some, io_f16)),
                        PushBlock::Norm(
                            NormPc {
                                rows,
                                cols,
                                eps,
                                pad: 0,
                                in_ptr: input.buffer.address,
                                out_ptr: output.buffer.address,
                                weight_ptr: weight.buffer.address,
                                bias_ptr: match bias {
                                    Some(b) => b.buffer.address,
                                    None => 0,
                                },
                            },
                        ),
                        rows,
                        1,
                    )
                },
            }
        },
    }
}

/// The tokens of an input under a rotation's geometry, where the rotated
/// lanes are valid and the table covers every position.
pub open spec fn rope_tokens_result(
    op: OpName,
    input: TensorView,
    table: TensorView,
    desc: RopeDesc,
) -> Result<u32, ErrorView> {
    let vec_elems = desc.heads * desc.head_dim;
    let tokens = input.len() as int / vec_elems;
    let needed = (desc.pos_base + tokens) * desc.rot_dim;
    if desc.rot_dim < 2 || desc.rot_dim % 2 != 0 || desc.rot_dim > desc.head_dim {
        Err(refused(Refusal::RotDim { op, rot_dim: desc.rot_dim, head_dim: desc.head_dim }))
    } else if vec_elems == 0 || input.len() as int % vec_elems != 0 {
        Err(
            refused(
                Refusal::RopeInput { op, len: input.len() as u64, vec_elems: vec_elems as u64 },
            ),
        )
    } else if tokens > u32::MAX {
        Err(refused(Refusal::RopeTokens { op }))
    } else if table.len() < needed {
        Err(
            refused(
                Refusal::RopeTable {
                    op,
                    len: table.len() as u64,
                    needed: needed as u64,
                    pos_base: desc.pos_base,
                    tokens: tokens as u32,
                    rot_dim: desc.rot_dim,
                },
            ),
        )
    } else {
        Ok(tokens as u32)
    }
}

/// The tokens of an input, where it has whole ones.
pub open spec fn token_count(input: TensorView, desc: RopeDesc) -> int {
    input.len() as int / (desc.heads * desc.head_dim)
}

/// An input that a rotation's geometry divides into tokens.
pub open spec fn has_tokens(input: TensorView, desc: RopeDesc) -> bool {
    &&& desc.rot_dim >= 2
    &&& desc.rot_dim % 2 == 0
    &&& desc.rot_dim <= desc.head_dim
    &&& desc.heads * desc.head_dim > 0
    &&& input.len() as int % (desc.heads * desc.head_dim) == 0
    &&& token_count(input, desc) <= u32::MAX
}

/// The table elements that a rotation needs can be told, where it comes to
/// ask for them.
pub open spec fn table_need_fits(input: TensorView, desc: RopeDesc) -> bool {
    has_tokens(input, desc) ==> (desc.pos_base + token_count(input, desc)) * desc.rot_dim <= u64::MAX
}

/// The lane pairs of a rotation fit the number that the shader takes.
pub open spec fn pairs_fit(tokens: u32, desc: RopeDesc) -> bool {
    &&& tokens * desc.heads <= u32::MAX
    &&& tokens * desc.heads * (desc.rot_dim as int / 2) <= u32::MAX
}

/// The counts of a rotation that is not refused fit their numbers.
pub open spec fn rope_fits(
    ctx: VulkanContext,
    input: TensorView,
    table: TensorView,
    output: TensorView,
    desc: RopeDesc,
) -> bool {
    let op = OpName::Rope;
    io_result(ctx, op, input, output) is Ok && f32_result(ctx, table, op, Role::Table) is Ok
        && shape_result(op, input, output) is Ok ==> {
        &&& table_need_fits(input, desc)
        &&& rope_tokens_result(op, input, table, desc) matches Ok(tokens) ==> pairs_fit(tokens, desc)
    }
}

/// The dispatch of a rotation: one thread per lane pair.
pub open spec fn rope_plan(
    ctx: VulkanContext,
    input: TensorView,
    table: TensorView,
    output: TensorView,
    desc: RopeDesc,
) -> Result<ElementwiseDispatch, ErrorView> {
    let op = OpName::Rope;
    match io_result(ctx, op, input, output) {
        Err(e) => Err(e),
        Ok(io_f16) => if let Err(e) = f32_result(ctx, table, op, Role::Table) {
            Err(e)
        } else if let Err(e) = shape_result(op, input, output) {
            Err(e)
        } else {
            match rope_tokens_result(op, input, table, desc) {
                Err(e) => Err(e),
                Ok(tokens) => planned(
                    ctx,
                    ElementwiseKernel::Simt(if io_f16 { Op::RopeF16 } else { Op::Rope }),
                    PushBlock::Rope(
                        RopePc {
                            tokens,
                            heads: desc.heads,
                            head_dim: desc.head_dim,
                            rot_dim: desc.rot_dim,
                            pos_base: desc.pos_base,
                            pad: 0,
                            in_ptr: input.buffer.address,
                            out_ptr: output.buffer.address,
                            table_ptr: table.buffer.address,
                            pos_ptr: desc.pos_addr,
                        },
                    ),
                    ceil_div(tokens * desc.heads * (desc.rot_dim as int / 2), WG as int) as u32,
                    1,
                ),
            }
        },
    }
}

/// The farthest element that strides reach over an extent.
pub open spec fn reach(offset: u32, x: int, y: int, z: int, strides: [u32; 3]) -> int {
    offset + (x - 1) * strides[0] + (y - 1) * strides[1] + (z - 1) * strides[2]
}

/// The farthest element of a scatter.
pub open spec fn scatter_reach(tokens: u32, desc: RopeDesc, scatter: RopeScatterDesc) -> int {
    reach(
        scatter.dst_offset,
        tokens as int,
        desc.heads as int,
        desc.head_dim as int,
        scatter.dst_strides,
    )
}

/// The counts of a scatter that is not refused fit their numbers, and its
/// farthest element can be told.
pub open spec fn scatter_fits(
    ctx: VulkanContext,
    input: TensorView,
    table: TensorView,
    dst: TensorView,
    desc: RopeDesc,
    scatter: RopeScatterDesc,
) -> bool {
    let op = OpName::RopeScatter;
    f32_result(ctx, input, op, Role::Input) is Ok && f32_result(ctx, table, op, Role::Table) is Ok
        && context_result(ctx, dst, Role::Dst) is Ok && input.buffer.handle != dst.buffer.handle
        ==> {
        &&& table_need_fits(input, desc)
        &&& rope_tokens_result(op, input, table, desc) matches Ok(tokens) ==> {
            let last = scatter_reach(tokens, desc, scatter);
            &&& last <= u64::MAX
            &&& last < dst.len() ==> pairs_fit(tokens, desc)
        }
    }
}

/// The dispatch of a rotation into a strided destination, every element of
/// which lies inside it.
pub open spec fn rope_scatter_plan(
    ctx: VulkanContext,
    input: TensorView,
    table: TensorView,
    dst: TensorView,
    desc: RopeDesc,
    scatter: RopeScatterDesc,
) -> Result<ElementwiseDispatch, ErrorView> {
    let op = OpName::RopeScatter;
    if let Err(e) = f32_result(ctx, input, op, Role::Input) {
        Err(e)
    } else if let Err(e) = f32_result(ctx, table, op, Role::Table) {
        Err(e)
    } else if let Err(e) = context_result(ctx, dst, Role::Dst) {
        Err(e)
    } else if input.buffer.handle == dst.buffer.handle {
        Err(refused(Refusal::SameTensor { op, one: Role::Input, other: Role::Dst }))
    } else {
        match rope_tokens_result(op, input, table, desc) {
            Err(e) => Err(e),
            Ok(tokens) => {
                let last = scatter_reach(tokens, desc, scatter);
                if last >= dst.len() {
                    Err(
                        refused(
                            Refusal::DestinationReach {
                                op,
                                reach: last as u64,
                                len: dst.len() as u64,
                            },
                        ),
                    )
                } else {
                    planned(
                        ctx,
                        ElementwiseKernel::Simt(
                            if dst.dtype == DType::F16 {
                                Op::RopeScatterToF16
                            } else {
                                Op::RopeScatter
                            },
                        ),
                        PushBlock::RopeScatter(
                            RopeScatterPc {
                                tokens,
                                heads: desc.heads,
                                head_dim: desc.head_dim,
                                rot_dim: desc.rot_dim,
                                pos_base: desc.pos_base,
                                dst_offset: scatter.dst_offset,
                                dst_strides: scatter.dst_strides,
                                pos_scale: scatter.pos_scale,
                                in_ptr: input.buffer.address,
                                dst_ptr: dst.buffer.address,
                                table_ptr: table.buffer.address,
                                pos_ptr: desc.pos_addr,
                            },
                        ),
                        ceil_div(tokens * desc.heads * (desc.rot_dim as int / 2), WG as int) as u32,
                        1,
                    )
                }
            },
        }
    }
}

/// The dispatch of a binary combination: four elements per thread.
pub open spec fn binary_plan(
    ctx: VulkanContext,
    a: TensorView,
    b: TensorView,
    out: TensorView,
    op: BinaryOp,
) -> Result<ElementwiseDispatch, ErrorView> {
    match io_result(ctx, OpName::Binary, a, out) {
        Err(e) => Err(e),
        Ok(io_f16) => if let Err(e) = context_result(ctx, b, Role::SecondOperand) {
            Err(e)
        } else if b.dtype != a.dtype {
            Err(refused(Refusal::BinaryStorage { b_type: b.dtype, a_type: a.dtype }))
        } else if a.len() != b.len() || a.len() != out.len() {
            Err(
                refused(
                    Refusal::BinaryCounts {
                        a_len: a.len() as u64,
                        b_len: b.len() as u64,
                        out_len: out.len() as u64,
                    },
                ),
            )
        } else if a.len() > u32::MAX {
            Err(refused(Refusal::BinaryTooLarge))
        } else {
            planned(
                ctx,
                ElementwiseKernel::Simt(if io_f16 { Op::BinaryF16 } else { Op::Binary }),
                PushBlock::Binary(
                    BinaryPc {
                        n: a.len() as u32,
                        mode: match op {
                            BinaryOp::AddScaled { .. } => 0,
                            BinaryOp::SiluMul => 1,
                        },
                        beta: match op {
                            BinaryOp::AddScaled { beta } => beta,
                            BinaryOp::SiluMul => Scalar::zero(),
                        },
                        pad: 0,
                        a_ptr: a.buffer.address,
                        b_ptr: b.buffer.address,
                        out_ptr: out.buffer.address,
                    },
                ),
                ceil_div(a.len() as int, 4 * WG) as u32,
                1,
            )
        },
    }
}

/// The farthest element that a copy reaches on one side.
pub open spec fn copy_reach(extent: [u32; 3], offset: u32, strides: [u32; 3]) -> int {
    reach(offset, extent[0] as int, extent[1] as int, extent[2] as int, strides)
}

/// A copy has elements.
pub open spec fn has_extent(desc: CopyDesc) -> bool {
    desc.extent[0] != 0 && desc.extent[1] != 0 && desc.extent[2] != 0
}

/// The element count of a copy that is not refused can be told, and so can
/// its farthest elements.
pub open spec fn copy_fits(ctx: VulkanContext, src: TensorView, dst: TensorView, desc: CopyDesc) -> bool {
    let src_reach = copy_reach(desc.extent, desc.src_offset, desc.src_strides);
    let dst_reach = copy_reach(desc.extent, desc.dst_offset, desc.dst_strides);
    context_result(ctx, src, Role::Src) is Ok && context_result(ctx, dst, Role::Dst) is Ok
        && src.buffer.handle != dst.buffer.handle ==> {
        &&& desc.extent[0] * desc.extent[1] * desc.extent[2] <= u64::MAX
        &&& has_extent(desc) ==> {
            &&& src_reach <= u64::MAX
            &&& src_reach < src.len() ==> dst_reach <= u64::MAX
        }
    }
}

/// The kernel of a copy between two storage types.
pub open spec fn copy_kernel(src: DType, dst: DType) -> Op {
    match (src, dst) {
        (DType::F32, DType::F32) => Op::Copy,
        (DType::F32, DType::F16) => Op::CopyToF16,
        (DType::F16, DType::F16) => Op::CopyF16,
        (DType::F16, DType::F32) => Op::CopyF16ToF32,
    }
}

/// The dispatch of a strided copy between two tensors, every element of which
/// lies inside both.
pub open spec fn copy_plan(ctx: VulkanContext, src: TensorView, dst: TensorView, desc: CopyDesc) -> Result<
    ElementwiseDispatch,
    ErrorView,
> {
    let op = OpName::CopyStrided;
    let total = desc.extent[0] * desc.extent[1] * desc.extent[2];
    let src_reach = copy_reach(desc.extent, desc.src_offset, desc.src_strides);
    let dst_reach = copy_reach(desc.extent, desc.dst_offset, desc.dst_strides);
    if let Err(e) = context_result(ctx, src, Role::Src) {
        Err(e)
    } else if let Err(e) = context_result(ctx, dst, Role::Dst) {
        Err(e)
    } else if src.buffer.handle == dst.buffer.handle {
        Err(refused(Refusal::SameTensor { op, one: Role::Src, other: Role::Dst }))
    } else if desc.extent[0] == 0 || desc.extent[1] == 0 || desc.extent[2] == 0 {
        Err(
            refused(
                Refusal::ZeroExtent { x: desc.extent[0], y: desc.extent[1], z: desc.extent[2] },
            ),
        )
    } else if src_reach >= src.len() {
        Err(refused(Refusal::SourceReach { reach: src_reach as u64, len: src.len() as u64 }))
    } else if dst_reach >= dst.len() {
        Err(
            refused(
                Refusal::DestinationReach { op, reach: dst_reach as u64, len: dst.len() as u64 },
            ),
        )
    } else if total > u32::MAX {
        Err(refused(Refusal::ExtentProduct))
    } else {
        planned(
            ctx,
            ElementwiseKernel::Simt(copy_kernel(src.dtype, dst.dtype)),
            PushBlock::Copy(
                CopyPc {
                    extent: desc.extent,
                    src_offset: desc.src_offset,
                    src_strides: desc.src_strides,
                    dst_offset: desc.dst_offset,
                    dst_strides: desc.dst_strides,
                    pos_scale: desc.pos_scale,
                    src_ptr: src.buffer.address,
                    dst_ptr: dst.buffer.address,
                    pos_ptr: desc.pos_addr,
                },
            ),
            ceil_div(total as int, WG as int) as u32,
            1,
        )
    }
}

/// The dispatch of a greedy argmax: one workgroup.
pub open spec fn argmax_plan(ctx: VulkanContext, input: TensorView, result: Buffer) -> Result<
    ElementwiseDispatch,
    ErrorView,
> {
    if let Err(e) = f32_result(ctx, input, OpName::Argmax, Role::Input) {
        Err(e)
    } else if result.context != ctx.id {
        Err(refused(Refusal::ForeignResult))
    } else if input.len() > u32::MAX {
        Err(refused(Refusal::ArgmaxTooLong))
    } else {
        planned(
            ctx,
            ElementwiseKernel::Simt(Op::Argmax),
            PushBlock::Argmax(
                ArgmaxPc {
                    n: input.len() as u32,
                    pad: 0,
                    in_ptr: input.buffer.address,
                    result_ptr: result.address,
                },
            ),
            1,
            1,
        )
    }
}

/// The rows that a gather writes: one for `[embd]`, `t` for `[t, embd]`.
pub open spec fn gather_rows(out: Seq<u32>, embd: u32) -> Option<u32> {
    if out.len() == 1 && out[0] == embd {
        Some(1)
    } else if out.len() == 2 && out[1] == embd && out[0] > 0 {
        Some(out[0])
    } else {
        None
    }
}

/// The dispatch of an embedding gather: a row of workgroups per token.
pub open spec fn gather_plan(ctx: VulkanContext, tokens: Buffer, table: TensorView, out: TensorView) -> Result<
    ElementwiseDispatch,
    ErrorView,
> {
    if let Err(e) = context_result(ctx, table, Role::Table) {
        Err(e)
    } else if let Err(e) = context_result(ctx, out, Role::Out) {
        Err(e)
    } else if tokens.context != ctx.id {
        Err(refused(Refusal::ForeignTokens))
    } else if table.shape.len() != 2 {
        Err(refused_shapes(Refusal::GatherTable, table.shape, Seq::empty()))
    } else {
        let vocab = table.shape[0];
        let embd = table.shape[1];
        match gather_rows(out.shape, embd) {
            None => Err(refused_shapes(Refusal::GatherOut { embd }, out.shape, Seq::empty())),
            Some(n_tokens) => if tokens.bytes < n_tokens * 4 {
                Err(
                    refused(
                        Refusal::GatherTokens {
                            bytes: tokens.bytes,
                            needed: (n_tokens * 4) as u64,
                            n_tokens,
                        },
                    ),
                )
            } else {
                planned(
                    ctx,
                    ElementwiseKernel::Simt(Op::EmbedGather),
                    PushBlock::EmbedGather(
                        EmbedGatherPc {
                            embd,
                            vocab,
                            table_f16: if table.dtype == DType::F16 { 1 } else { 0 },
                            n_tokens,
                            out_f16: if out.dtype == DType::F16 { 1 } else { 0 },
                            pad: 0,
                            token_ptr: tokens.address,
                            table_ptr: table.buffer.address,
                            out_ptr: out.buffer.address,
                        },
                    ),
                    ceil_div(embd as int, 4 * WG) as u32,
                    n_tokens,
                )
            },
        }
    }
}

/// Decides [`table_need_fits`].
fn check_table_need(input: &Tensor, desc: RopeDesc) -> (r: bool)
    ensures
        r == table_need_fits(input@, desc),
{
    proof {
        lemma_mul_u32(desc.heads as int, desc.head_dim as int);
    }
    let vec_elems: u64 = desc.heads as u64 * desc.head_dim as u64;
    if desc.rot_dim < 2 || desc.rot_dim % 2 != 0 || desc.rot_dim > desc.head_dim || vec_elems == 0 {
        return true;
    }
    let len: u64 = input.len();
    let tokens: u64 = len / vec_elems;
    if len % vec_elems != 0 || tokens > u32::MAX as u64 {
        return true;
    }
    mul_wide(desc.pos_base as u64 + tokens, desc.rot_dim) <= u64::MAX as u128
}

/// Decides [`pairs_fit`].
fn check_pairs(tokens: u32, desc: RopeDesc) -> (r: bool)
    ensures
        r == pairs_fit(tokens, desc),
{
    let vectors: u128 = mul_wide(tokens as u64, desc.heads);
    let pairs: u128 = mul3(tokens, desc.heads, desc.rot_dim / 2);
    vectors <= u32::MAX as u128 && pairs <= u32::MAX as u128
}

/// Decides whether three strides reach no farther than a number can tell.
fn reach_fits(offset: u32, x: u32, y: u32, z: u32, strides: [u32; 3]) -> (r: bool)
    ensures
        r == (reach(offset, x as int, y as int, z as int, strides) <= u64::MAX),
{
    proof {
        lemma_mul_u32(x - 1, strides[0] as int);
        lemma_mul_u32(y - 1, strides[1] as int);
        lemma_mul_u32(z - 1, strides[2] as int);
    }
    let a: i128 = (x as i128 - 1) * strides[0] as i128;
    let b: i128 = (y as i128 - 1) * strides[1] as i128;
    let c: i128 = (z as i128 - 1) * strides[2] as i128;
    offset as i128 + a + b + c <= u64::MAX as i128
}

/// Each of three strides times one less than its extent, and an offset.
fn reach_of(offset: u32, x: u32, y: u32, z: u32, strides: [u32; 3]) -> (r: u64)
    requires
        x > 0,
        y > 0,
        z > 0,
        reach(offset, x as int, y as int, z as int, strides) <= u64::MAX,
    ensures
        r == reach(offset, x as int, y as int, z as int, strides),
{
    proof {
        lemma_mul_u32(x - 1, strides[0] as int);
        lemma_mul_u32(y - 1, strides[1] as int);
        lemma_mul_u32(z - 1, strides[2] as int);
    }
    let a: u64 = (x as u64 - 1) * strides[0] as u64;
    let b: u64 = (y as u64 - 1) * strides[1] as u64;
    let c: u64 = (z as u64 - 1) * strides[2] as u64;
    offset as u64 + a + b + c
}

impl Executor {
    /// Decides [`rope_fits`].
    pub fn check_rope_fits(&self, input: &Tensor, table: &Tensor, output: &Tensor, desc: RopeDesc) -> (r:
        bool)
        ensures
            r == rope_fits(self@.ctx, input@, table@, output@, desc),
    {
        let op: OpName = OpName::Rope;
        if self.io_dtype_f16(op, input, output).is_err() || self.ensure_f32(
            table,
            op,
            Role::Table,
        ).is_err() || Executor::ensure_same_shape(op, input, output).is_err() {
            return true;
        }
        if !check_table_need(input, desc) {
            return false;
        }
        match Executor::rope_tokens(op, input, table, desc) {
            Ok(tokens) => check_pairs(tokens, desc),
            Err(_) => true,
        }
    }

    /// Decides [`scatter_fits`].
    pub fn check_scatter_fits(
        &self,
        input: &Tensor,
        table: &Tensor,
        dst: &Tensor,
        desc: RopeDesc,
        scatter: RopeScatterDesc,
    ) -> (r: bool)
        ensures
            r == scatter_fits(self@.ctx, input@, table@, dst@, desc, scatter),
    {
        let op: OpName = OpName::RopeScatter;
        if self.ensure_f32(input, op, Role::Input).is_err() || self.ensure_f32(
            table,
            op,
            Role::Table,
        ).is_err() || self.validate_tensor_context(dst, Role::Dst).is_err() || input.raw_buffer()
            == dst.raw_buffer() {
            return true;
        }
        if !check_table_need(input, desc) {
            return false;
        }
        match Executor::rope_tokens(op, input, table, desc) {
            Ok(tokens) => {
                let strides: [u32; 3] = scatter.dst_strides;
                if !reach_fits(scatter.dst_offset, tokens, desc.heads, desc.head_dim, strides) {
                    return false;
                }
                let last: u64 = reach_of(
                    scatter.dst_offset,
                    tokens,
                    desc.heads,
                    desc.head_dim,
                    strides,
                );
                last >= dst.len() || check_pairs(tokens, desc)
            }
            Err(_) => true,
        }
    }

    /// Decides [`copy_fits`].
    pub fn check_copy_fits(&self, src: &Tensor, dst: &Tensor, desc: CopyDesc) -> (r: bool)
        ensures
            r == copy_fits(self@.ctx, src@, dst@, desc),
    {
        if self.validate_tensor_context(src, Role::Src).is_err() || self.validate_tensor_context(
            dst,
            Role::Dst,
        ).is_err() || src.raw_buffer() == dst.raw_buffer() {
            return true;
        }
        let x: u32 = desc.extent[0];
        let y: u32 = desc.extent[1];
        let z: u32 = desc.extent[2];
        if mul3(x, y, z) > u64::MAX as u128 {
            return false;
        }
        if x == 0 || y == 0 || z == 0 {
            return true;
        }
        if !reach_fits(desc.src_offset, x, y, z, desc.src_strides) {
            return false;
        }
        reach_of(desc.src_offset, x, y, z, desc.src_strides) >= src.len() || reach_fits(
            desc.dst_offset,
            x,
            y,
            z,
            desc.dst_strides,
        )
    }

    /// Plans a numerically stable softmax over the last dimension, with
    /// optional masking. `scale` multiplies inputs first. In place is safe.
    pub fn plan_softmax_rows(&self, input: &Tensor, output: &Tensor, scale: Scalar, mask: SoftmaxMask) -> (r:
        Result<ElementwiseDispatch, Error>)
        ensures
            outcome(r) == softmax_plan(self@.ctx, input@, output@, scale, mask),
    {
        let op: OpName = OpName::SoftmaxRows;
        if let Err(e) = self.ensure_f32(input, op, Role::Input) {
            return Err(e);
        }
        if let Err(e) = self.ensure_f32(output, op, Role::Output) {
            return Err(e);
        }
        if let Err(e) = Executor::ensure_same_shape(op, input, output) {
            return Err(e);
        }
        let (rows, cols): (u32, u32) = match rows_cols(input, op) {
            Ok(rc) => rc,
            Err(e) => return Err(e),
        };
        let (valid_base, rows_per_group, causal): (u32, u32, u32) = match mask {
            SoftmaxMask::Full => (cols, 1, 0),
            SoftmaxMask::Prefix { valid } => (if valid < cols { valid } else { cols }, 1, 0),
            SoftmaxMask::Causal { prefix, rows_per_group } => {
                if rows_per_group == 0 || rows % rows_per_group != 0 {
                    return Err(Error::new(Refusal::RowsPerGroup { rows_per_group, rows }));
                }
                (prefix, rows_per_group, 1)
            }
        };
        self.plan_elementwise(
            ElementwiseKernel::Simt(Op::Softmax),
            PushBlock::Softmax(
                SoftmaxPc {
                    rows,
                    cols,
                    valid_base,
                    rows_per_group,
                    causal,
                    scale,
                    in_ptr: input.device_address(),
                    out_ptr: output.device_address(),
                },
            ),
            rows,
            1,
        )
    }

    /// Plans a norm over the last dimension: RMSNorm without a bias,
    /// LayerNorm with one. Activations may be f16 for RMSNorm only. In place
    /// is safe.
    pub fn plan_norm(
        &self,
        op: OpName,
        input: &Tensor,
        weight: &Tensor,
        bias: Option<&Tensor>,
        output: &Tensor,
        eps: Scalar,
    ) -> (r: Result<ElementwiseDispatch, Error>)
        ensures
            outcome(r) == norm_plan(
                self@.ctx,
                op,
                input@,
                weight@,
                match bias {
                    Some(b) => Some(b@),
                    None => None,
                },
                output@,
                eps,
            ),
    {
        let io_f16: bool = match self.io_dtype_f16(op, input, output) {
            Ok(b) => b,
            Err(e) => return Err(e),
        };
        if let Err(e) = self.ensure_f32(weight, op, Role::Weight) {
            return Err(e);
        }
        if let Some(bias) = bias {
            if let Err(e) = self.ensure_f32(bias, op, Role::Bias) {
                return Err(e);
            }
        }
        if io_f16 && bias.is_some() {
            return Err(Error::new(Refusal::F16LayerNorm { op }));
        }
        if let Err(e) = Executor::ensure_same_shape(op, input, output) {
            return Err(e);
        }
        let (rows, cols): (u32, u32) = match rows_cols(input, op) {
            Ok(rc) => rc,
            Err(e) => return Err(e),
        };
        let len: u64 = weight.len();
        if len != cols as u64 {
            return Err(Error::new(Refusal::NormLength { op, role: Role::Weight, len, cols }));
        }
        let mut bias_ptr: u64 = 0;
        if let Some(bias) = bias {
            let len: u64 = bias.len();
            if len != cols as u64 {
                return Err(Error::new(Refusal::NormLength { op, role: Role::Bias, len, cols }));
            }
            bias_ptr = bias.device_address();
        }
        let kernel: Op = if bias.is_some() {
            Op::LayerNorm
        } else if io_f16 {
            Op::RmsNormF16
        } else {
            Op::RmsNorm
        };
        self.plan_elementwise(
            ElementwiseKernel::Simt(kernel),
            PushBlock::Norm(
                NormPc {
                    rows,
                    cols,
                    eps,
                    pad: 0,
                    in_ptr: input.device_address(),
                    out_ptr: output.device_address(),
                    weight_ptr: weight.device_address(),
                    bias_ptr,
                },
            ),
            rows,
            1,
        )
    }

    fn rope_tokens(op: OpName, input: &Tensor, table: &Tensor, desc: RopeDesc) -> (r: Result<u32, Error>)
        requires
            table_need_fits(input@, desc),
        ensures
            outcome(r) == rope_tokens_result(op, input@, table@, desc),
            r matches Ok(tokens) ==> tokens >= 1 && tokens == token_count(input@, desc)
                && desc.heads >= 1 && desc.head_dim >= 2 && desc.heads * desc.head_dim > 0,
    {
        if desc.rot_dim < 2 || desc.rot_dim % 2 != 0 || desc.rot_dim > desc.head_dim {
            return Err(
                Error::new(
                    Refusal::RotDim { op, rot_dim: desc.rot_dim, head_dim: desc.head_dim },
                ),
            );
        }
        proof {
            lemma_mul_u32(desc.heads as int, desc.head_dim as int);
        }
        let vec_elems: u64 = desc.heads as u64 * desc.head_dim as u64;
        let len: u64 = input.len();
        if vec_elems == 0 || len % vec_elems != 0 {
            return Err(Error::new(Refusal::RopeInput { op, len, vec_elems }));
        }
        let count: u64 = len / vec_elems;
        if count > u32::MAX as u64 {
            return Err(Error::new(Refusal::RopeTokens { op }));
        }
        let tokens: u32 = count as u32;
        proof {
            vstd::arithmetic::div_mod::lemma_fundamental_div_mod(len as int, vec_elems as int);
            assert(tokens >= 1) by (nonlinear_arith)
                requires
                    len as int == vec_elems * (len as int / vec_elems as int) + 0,
                    len >= 1,
                    tokens as int == len as int / vec_elems as int,
                    tokens >= 0,
            ;
            assert(desc.heads >= 1) by (nonlinear_arith)
                requires
                    vec_elems == desc.heads * desc.head_dim,
                    vec_elems != 0,
                    desc.heads >= 0,
            ;
        }
        let needed: u64 = (desc.pos_base as u64 + tokens as u64) * desc.rot_dim as u64;
        let have: u64 = table.len();
        if have < needed {
            return Err(
                Error::new(
                    Refusal::RopeTable {
                        op,
                        len: have,
                        needed,
                        pos_base: desc.pos_base,
                        tokens,
                        rot_dim: desc.rot_dim,
                    },
                ),
            );
        }
        Ok(tokens)
    }

    /// Plans a rotary embedding over `[T, H, dh]` activations. `table` holds
    /// `[T_max, rot_dim/2, 2]` cosines and sines. In place is safe.
    pub fn plan_rope(&self, input: &Tensor, table: &Tensor, output: &Tensor, desc: RopeDesc) -> (r: Result<
        ElementwiseDispatch,
        Error,
    >)
        requires
            rope_fits(self@.ctx, input@, table@, output@, desc),
        ensures
            outcome(r) == rope_plan(self@.ctx, input@, table@, output@, desc),
    {
        let op: OpName = OpName::Rope;
        let io_f16: bool = match self.io_dtype_f16(op, input, output) {
            Ok(b) => b,
            Err(e) => return Err(e),
        };
        if let Err(e) = self.ensure_f32(table, op, Role::Table) {
            return Err(e);
        }
        if let Err(e) = Executor::ensure_same_shape(op, input, output) {
            return Err(e);
        }
        let tokens: u32 = match Executor::rope_tokens(op, input, table, desc) {
            Ok(t) => t,
            Err(e) => return Err(e),
        };
        let pairs: u32 = tokens * desc.heads * (desc.rot_dim / 2);
        self.plan_elementwise(
            ElementwiseKernel::Simt(if io_f16 { Op::RopeF16 } else { Op::Rope }),
            PushBlock::Rope(
                RopePc {
                    tokens,
                    heads: desc.heads,
                    head_dim: desc.head_dim,
                    rot_dim: desc.rot_dim,
                    pos_base: desc.pos_base,
                    pad: 0,
                    in_ptr: input.device_address(),
                    out_ptr: output.device_address(),
                    table_ptr: table.device_address(),
                    pos_ptr: desc.pos_addr,
                },
            ),
            div_ceil(pairs, WG),
            1,
        )
    }

    /// Plans a rotation that writes every element straight into a strided
    /// destination. `dst` may be f32 or f16 and must not be `input`.
    pub fn plan_rope_scatter(
        &self,
        input: &Tensor,
        table: &Tensor,
        dst: &Tensor,
        desc: RopeDesc,
        scatter: RopeScatterDesc,
    ) -> (r: Result<ElementwiseDispatch, Error>)
        requires
            scatter_fits(self@.ctx, input@, table@, dst@, desc, scatter),
        ensures
            outcome(r) == rope_scatter_plan(self@.ctx, input@, table@, dst@, desc, scatter),
    {
        let op: OpName = OpName::RopeScatter;
        if let Err(e) = self.ensure_f32(input, op, Role::Input) {
            return Err(e);
        }
        if let Err(e) = self.ensure_f32(table, op, Role::Table) {
            return Err(e);
        }
        if let Err(e) = self.validate_tensor_context(dst, Role::Dst) {
            return Err(e);
        }
        if input.raw_buffer() == dst.raw_buffer() {
            return Err(
                Error::new(Refusal::SameTensor { op, one: Role::Input, other: Role::Dst }),
            );
        }
        let tokens: u32 = match Executor::rope_tokens(op, input, table, desc) {
            Ok(t) => t,
            Err(e) => return Err(e),
        };
        let last: u64 = reach_of(
            scatter.dst_offset,
            tokens,
            desc.heads,
            desc.head_dim,
            scatter.dst_strides,
        );
        let len: u64 = dst.len();
        if last >= len {
            return Err(Error::new(Refusal::DestinationReach { op, reach: last, len }));
        }
        let pairs: u32 = tokens * desc.heads * (desc.rot_dim / 2);
        let kernel: Op = match dst.dtype() {
            DType::F32 => Op::RopeScatter,
            DType::F16 => Op::RopeScatterToF16,
        };
        self.plan_elementwise(
            ElementwiseKernel::Simt(kernel),
            PushBlock::RopeScatter(
                RopeScatterPc {
                    tokens,
                    heads: desc.heads,
                    head_dim: desc.head_dim,
                    rot_dim: desc.rot_dim,
                    pos_base: desc.pos_base,
                    dst_offset: scatter.dst_offset,
                    dst_strides: scatter.dst_strides,
                    pos_scale: scatter.pos_scale,
                    in_ptr: input.device_address(),
                    dst_ptr: dst.device_address(),
                    table_ptr: table.device_address(),
                    pos_ptr: desc.pos_addr,
                },
            ),
            div_ceil(pairs, WG),
            1,
        )
    }

    /// Plans a binary combination. Element counts have to be equal; `out` may
    /// be either input.
    pub fn plan_binary(&self, a: &Tensor, b: &Tensor, out: &Tensor, op: BinaryOp) -> (r: Result<
        ElementwiseDispatch,
        Error,
    >)
        ensures
            outcome(r) == binary_plan(self@.ctx, a@, b@, out@, op),
    {
        let io_f16: bool = match self.io_dtype_f16(OpName::Binary, a, out) {
            Ok(b) => b,
            Err(e) => return Err(e),
        };
        if let Err(e) = self.validate_tensor_context(b, Role::SecondOperand) {
            return Err(e);
        }
        if b.dtype() != a.dtype() {
            return Err(
                Error::new(Refusal::BinaryStorage { b_type: b.dtype(), a_type: a.dtype() }),
            );
        }
        let a_len: u64 = a.len();
        let b_len: u64 = b.len();
        let out_len: u64 = out.len();
        if a_len != b_len || a_len != out_len {
            return Err(Error::new(Refusal::BinaryCounts { a_len, b_len, out_len }));
        }
        if a_len > u32::MAX as u64 {
            return Err(Error::new(Refusal::BinaryTooLarge));
        }
        let n: u32 = a_len as u32;
        let (mode, beta): (u32, Scalar) = match op {
            BinaryOp::AddScaled { beta } => (0, beta),
            BinaryOp::SiluMul => (1, Scalar::zero()),
        };
        self.plan_elementwise(
            ElementwiseKernel::Simt(if io_f16 { Op::BinaryF16 } else { Op::Binary }),
            PushBlock::Binary(
                BinaryPc {
                    n,
                    mode,
                    beta,
                    pad: 0,
                    a_ptr: a.device_address(),
                    b_ptr: b.device_address(),
                    out_ptr: out.device_address(),
                },
            ),
            div_ceil(n, 4 * WG),
            1,
        )
    }

    /// Plans a strided three-dimensional copy between different tensors.
    pub fn plan_copy_strided(&self, src: &Tensor, dst: &Tensor, desc: CopyDesc) -> (r: Result<
        ElementwiseDispatch,
        Error,
    >)
        requires
            copy_fits(self@.ctx, src@, dst@, desc),
        ensures
            outcome(r) == copy_plan(self@.ctx, src@, dst@, desc),
    {
        let op: OpName = OpName::CopyStrided;
        if let Err(e) = self.validate_tensor_context(src, Role::Src) {
            return Err(e);
        }
        if let Err(e) = self.validate_tensor_context(dst, Role::Dst) {
            return Err(e);
        }
        if src.raw_buffer() == dst.raw_buffer() {
            return Err(
                Error::new(Refusal::SameTensor { op, one: Role::Src, other: Role::Dst }),
            );
        }
        let x: u32 = desc.extent[0];
        let y: u32 = desc.extent[1];
        let z: u32 = desc.extent[2];
        if x == 0 || y == 0 || z == 0 {
            return Err(Error::new(Refusal::ZeroExtent { x, y, z }));
        }
        let src_reach: u64 = reach_of(desc.src_offset, x, y, z, desc.src_strides);
        let src_len: u64 = src.len();
        if src_reach >= src_len {
            return Err(Error::new(Refusal::SourceReach { reach: src_reach, len: src_len }));
        }
        let dst_reach: u64 = reach_of(desc.dst_offset, x, y, z, desc.dst_strides);
        let dst_len: u64 = dst.len();
        if dst_reach >= dst_len {
            return Err(
                Error::new(Refusal::DestinationReach { op, reach: dst_reach, len: dst_len }),
            );
        }
        proof {
            lemma_mul_u32(x as int, y as int);
        }
        let total: u64 = x as u64 * y as u64 * z as u64;
        if total > u32::MAX as u64 {
            return Err(Error::new(Refusal::ExtentProduct));
        }
        let kernel: Op = match (src.dtype(), dst.dtype()) {
            (DType::F32, DType::F32) => Op::Copy,
            (DType::F32, DType::F16) => Op::CopyToF16,
            (DType::F16, DType::F16) => Op::CopyF16,
            (DType::F16, DType::F32) => Op::CopyF16ToF32,
        };
        self.plan_elementwise(
            ElementwiseKernel::Simt(kernel),
            PushBlock::Copy(
                CopyPc {
                    extent: desc.extent,
                    src_offset: desc.src_offset,
                    src_strides: desc.src_strides,
                    dst_offset: desc.dst_offset,
                    dst_strides: desc.dst_strides,
                    pos_scale: desc.pos_scale,
                    src_ptr: src.device_address(),
                    dst_ptr: dst.device_address(),
                    pos_ptr: desc.pos_addr,
                },
            ),
            div_ceil(total as u32, WG),
            1,
        )
    }

    /// Plans a greedy argmax: the index of the largest element goes to the
    /// result cell, the largest index among equals.
    pub fn plan_argmax(&self, input: &Tensor, result: &HostU32Buffer) -> (r: Result<
        ElementwiseDispatch,
        Error,
    >)
        ensures
            outcome(r) == argmax_plan(self@.ctx, input@, result.backing()),
    {
        if let Err(e) = self.ensure_f32(input, OpName::Argmax, Role::Input) {
            return Err(e);
        }
        if !result.buffer().belongs_to(self.context()) {
            return Err(Error::new(Refusal::ForeignResult));
        }
        let len: u64 = input.len();
        if len > u32::MAX as u64 {
            return Err(Error::new(Refusal::ArgmaxTooLong));
        }
        self.plan_elementwise(
            ElementwiseKernel::Simt(Op::Argmax),
            PushBlock::Argmax(
                ArgmaxPc {
                    n: len as u32,
                    pad: 0,
                    in_ptr: input.device_address(),
                    result_ptr: result.device_address(),
                },
            ),
            1,
            1,
        )
    }

    /// Plans an embedding gather: rows of the `[vocab, embd]` table, chosen by
    /// the token ids in a buffer, go to `[embd]` or `[t, embd]`.
    pub fn plan_embed_gather(&self, tokens: &Buffer, table: &Tensor, out: &Tensor) -> (r: Result<
        ElementwiseDispatch,
        Error,
    >)
        ensures
            outcome(r) == gather_plan(self@.ctx, *tokens, table@, out@),
    {
        if let Err(e) = self.validate_tensor_context(table, Role::Table) {
            return Err(e);
        }
        if let Err(e) = self.validate_tensor_context(out, Role::Out) {
            return Err(e);
        }
        if !tokens.belongs_to(self.context()) {
            return Err(Error::new(Refusal::ForeignTokens));
        }
        let none: [u32; 0] = [];
        assert(none@ =~= Seq::<u32>::empty());
        let shape: &[u32] = table.shape();
        if shape.len() != 2 {
            return Err(Error::with_shapes(Refusal::GatherTable, shape, none.as_slice()));
        }
        let vocab: u32 = shape[0];
        let embd: u32 = shape[1];
        let rows: &[u32] = out.shape();
        let n_tokens: u32 = if rows.len() == 1 && rows[0] == embd {
            1
        } else if rows.len() == 2 && rows[1] == embd && rows[0] > 0 {
            rows[0]
        } else {
            return Err(Error::with_shapes(Refusal::GatherOut { embd }, rows, none.as_slice()));
        };
        let needed: u64 = n_tokens as u64 * 4;
        if tokens.bytes < needed {
            return Err(
                Error::new(Refusal::GatherTokens { bytes: tokens.bytes, needed, n_tokens }),
            );
        }
        let table_f16: u32 = if table.dtype() == DType::F16 { 1 } else { 0 };
        let out_f16: u32 = if out.dtype() == DType::F16 { 1 } else { 0 };
        self.plan_elementwise(
            ElementwiseKernel::Simt(Op::EmbedGather),
            PushBlock::EmbedGather(
                EmbedGatherPc {
                    embd,
                    vocab,
                    table_f16,
                    n_tokens,
                    out_f16,
                    pad: 0,
                    token_ptr: tokens.address,
                    table_ptr: table.device_address(),
                    out_ptr: out.device_address(),
                },
            ),
            div_ceil(embd, 4 * WG),
            n_tokens,
        )
    }
}

/// A planned copy stays inside both tensors: whatever index of the extent is
/// taken, source and destination element exist.
pub proof fn copy_stays_inside(
    ctx: VulkanContext,
    src: TensorView,
    dst: TensorView,
    desc: CopyDesc,
    x: int,
    y: int,
    z: int,
)
    requires
        copy_plan(ctx, src, dst, desc) is Ok,
        0 <= x < desc.extent[0],
        0 <= y < desc.extent[1],
        0 <= z < desc.extent[2],
    ensures
        0 <= desc.src_offset + x * desc.src_strides[0] + y * desc.src_strides[1] + z
            * desc.src_strides[2] < src.len(),
        0 <= desc.dst_offset + x * desc.dst_strides[0] + y * desc.dst_strides[1] + z
            * desc.dst_strides[2] < dst.len(),
        src.buffer.handle != dst.buffer.handle,
{
    lemma_within(desc.src_offset, desc.extent, desc.src_strides, x, y, z);
    lemma_within(desc.dst_offset, desc.extent, desc.dst_strides, x, y, z);
}

proof fn lemma_within(offset: u32, extent: [u32; 3], strides: [u32; 3], x: int, y: int, z: int)
    requires
        0 <= x < extent[0],
        0 <= y < extent[1],
        0 <= z < extent[2],
    ensures
        0 <= offset + x * strides[0] + y * strides[1] + z * strides[2] <= copy_reach(
            extent,
            offset,
            strides,
        ),
{
    let (sx, sy, sz) = (strides[0] as int, strides[1] as int, strides[2] as int);
    let (ex, ey, ez) = (extent[0] as int, extent[1] as int, extent[2] as int);
    assert(0 <= x * sx <= (ex - 1) * sx) by (nonlinear_arith)
        requires
            0 <= x < ex,
            sx >= 0,
    ;
    assert(0 <= y * sy <= (ey - 1) * sy) by (nonlinear_arith)
        requires
            0 <= y < ey,
            sy >= 0,
    ;
    assert(0 <= z * sz <= (ez - 1) * sz) by (nonlinear_arith)
        requires
            0 <= z < ez,
            sz >= 0,
    ;
}

/// A planned scatter stays inside its destination, whatever token, head and
/// lane is written.
pub proof fn scatter_stays_inside(
    ctx: VulkanContext,
    input: TensorView,
    table: TensorView,
    dst: TensorView,
    desc: RopeDesc,
    scatter: RopeScatterDesc,
    token: int,
    head: int,
    dim: int,
)
    requires
        rope_scatter_plan(ctx, input, table, dst, desc, scatter) is Ok,
        0 <= token < token_count(input, desc),
        0 <= head < desc.heads,
        0 <= dim < desc.head_dim,
    ensures
        0 <= scatter.dst_offset + token * scatter.dst_strides[0] + head * scatter.dst_strides[1]
            + dim * scatter.dst_strides[2] < dst.len(),
{
    let (sx, sy, sz) = (
        scatter.dst_strides[0] as int,
        scatter.dst_strides[1] as int,
        scatter.dst_strides[2] as int,
    );
    let tokens = token_count(input, desc);
    assert(0 <= token * sx <= (tokens - 1) * sx) by (nonlinear_arith)
        requires
            0 <= token < tokens,
            sx >= 0,
    ;
    assert(0 <= head * sy <= (desc.heads - 1) * sy) by (nonlinear_arith)
        requires
            0 <= head < desc.heads,
            sy >= 0,
    ;
    assert(0 <= dim * sz <= (desc.head_dim - 1) * sz) by (nonlinear_arith)
        requires
            0 <= dim < desc.head_dim,
            sz >= 0,
    ;
}

} // verus!
