//! Flash attention and the prefill QKV pack.

use crate::arith::{ceil_div, div_ceil, lemma_mul_u32, mul3, mul_wide};
use crate::context::VulkanContext;
use crate::dtype::DType;
use crate::error::{outcome, refused, refused_shapes, Error, ErrorView, OpName, Refusal, Role};
use crate::executor::elementwise::common::{
    f32_result, io_result, planned, Cm2Op, ElementwiseDispatch, ElementwiseKernel,
    FlashAttentionDesc, Op, PrefillQkvPackDesc, WG,
};
use crate::executor::elementwise::pc::{FlashPc, PrefillQkvPackPc, PushBlock};
use crate::executor::plan::Executor;
use crate::executor::validation::context_result;
use crate::matmul::resolution::same_shape;
use crate::tensor::{Tensor, TensorView};
use vstd::prelude::*;

verus! {

/// How a query or output tensor is laid out.
#[derive(Copy, Clone, Debug, PartialEq, Eq, Structural)]
pub struct RowLayout {
    pub heads: u32,
    pub rows: u32,
    pub head_stride: u32,
    pub row_stride: u32,
}

/// The layout of the query rows: token-major `[T, H, dh]` or `[T, H*dh]`, or
/// head-major `[H, T, dh]`.
pub open spec fn query_layout(q: TensorView, kt: TensorView, desc: FlashAttentionDesc) -> Result<
    RowLayout,
    ErrorView,
> {
    let dh = kt.shape[1];
    match desc.token_major_heads {
        Some(heads) => {
            let t_q = q.shape[0];
            if heads == 0 {
                Err(refused(Refusal::FlashHeadsZero))
            } else if q.len() != t_q * heads * dh {
                Err(
                    refused_shapes(
                        Refusal::FlashTokenMajorQ { t_q, heads, dh },
                        q.shape,
                        Seq::empty(),
                    ),
                )
            } else {
                Ok(
                    RowLayout {
                        heads,
                        rows: t_q,
                        head_stride: dh,
                        row_stride: (heads * dh) as u32,
                    },
                )
            }
        },
        None => if q.shape.len() != 3 {
            Err(refused_shapes(Refusal::FlashQShape, q.shape, Seq::empty()))
        } else if q.shape[2] != dh {
            Err(
                refused_shapes(
                    Refusal::FlashQDim { q_dh: q.shape[2], dh },
                    q.shape,
                    kt.shape,
                ),
            )
        } else {
            Ok(
                RowLayout {
                    heads: q.shape[0],
                    rows: q.shape[1],
                    head_stride: (q.shape[1] * dh) as u32,
                    row_stride: dh,
                },
            )
        },
    }
}

/// The strides of the output rows: token-major where the geometry says so,
/// else those of the query.
pub open spec fn output_strides(
    q: TensorView,
    out: TensorView,
    dh: u32,
    layout: RowLayout,
    desc: FlashAttentionDesc,
) -> Result<(u32, u32), ErrorView> {
    match desc.out_token_major_heads {
        Some(heads) => if heads == 0 {
            Err(refused(Refusal::FlashOutHeadsZero))
        } else if heads != layout.heads {
            Err(refused(Refusal::FlashOutHeads { out_heads: heads, heads: layout.heads }))
        } else if out.len() != layout.rows * heads * dh {
            Err(
                refused_shapes(
                    Refusal::FlashTokenMajorOut { t_q: layout.rows, heads, dh },
                    out.shape,
                    Seq::empty(),
                ),
            )
        } else {
            Ok((dh, (heads * dh) as u32))
        },
        None => if desc.token_major_heads is Some {
            if out.len() != q.len() {
                Err(refused_shapes(Refusal::FlashOutMatch, out.shape, q.shape))
            } else {
                Ok((layout.head_stride, layout.row_stride))
            }
        } else if out.shape != q.shape {
            Err(refused_shapes(Refusal::FlashOutShape, out.shape, q.shape))
        } else {
            Ok((layout.head_stride, layout.row_stride))
        },
    }
}

/// The kernel of an attention and the query rows per workgroup. f16 queries
/// have one compiled variant; else the cooperative-matrix kernels come first
/// where the device has them and the caller does not force the others.
pub open spec fn flash_kernel(
    ctx: VulkanContext,
    io_f16: bool,
    kv: DType,
    dh: u32,
    force_simt: bool,
) -> Result<(ElementwiseKernel, u32), ErrorView> {
    let kv_f16 = kv == DType::F16;
    let cm2 = ctx.coopmat2_enabled && !force_simt;
    if !ctx.buffer_device_address_enabled {
        Err(refused(Refusal::ElementwiseNeedsAddresses))
    } else if io_f16 {
        if !(kv_f16 && dh == 64 && !force_simt) {
            Err(refused(Refusal::FlashF16Variant { kv, dh }))
        } else if !ctx.coopmat2_enabled {
            Err(refused(Refusal::FlashF16NeedsCm2))
        } else {
            Ok((ElementwiseKernel::Cm2(Cm2Op::FlashKv16Io16Dh64), 64))
        }
    } else if dh == 64 {
        if cm2 {
            Ok(
                (
                    ElementwiseKernel::Cm2(
                        if kv_f16 { Cm2Op::FlashKv16Dh64 } else { Cm2Op::FlashDh64 },
                    ),
                    64,
                ),
            )
        } else {
            Ok((ElementwiseKernel::Simt(if kv_f16 { Op::FlashKv16Dh64 } else { Op::FlashDh64 }), 128))
        }
    } else if dh == 128 {
        if cm2 {
            Ok(
                (
                    ElementwiseKernel::Cm2(
                        if kv_f16 { Cm2Op::FlashKv16Dh128 } else { Cm2Op::FlashDh128 },
                    ),
                    64,
                ),
            )
        } else {
            Ok(
                (
                    ElementwiseKernel::Simt(if kv_f16 { Op::FlashKv16Dh128 } else { Op::FlashDh128 }),
                    128,
                ),
            )
        }
    } else {
        Err(refused(Refusal::FlashHeadDim { dh }))
    }
}

/// The checks on the caches.
pub open spec fn flash_cache_result(ctx: VulkanContext, kt: TensorView, v: TensorView) -> Result<
    (),
    ErrorView,
> {
    let op = OpName::FlashAttention;
    if let Err(e) = context_result(ctx, kt, Role::Kt) {
        Err(e)
    } else if let Err(e) = context_result(ctx, v, Role::V) {
        Err(e)
    } else if kt.dtype != v.dtype {
        Err(refused(Refusal::CacheStorage { op, kt: kt.dtype, v: v.dtype }))
    } else if kt.shape.len() != 3 {
        Err(refused_shapes(Refusal::KtShape { op }, kt.shape, Seq::empty()))
    } else if v.shape.len() != 3 {
        Err(refused_shapes(Refusal::VShape { op }, v.shape, Seq::empty()))
    } else if v.shape[1] != kt.shape[2] || v.shape[0] != kt.shape[0] || v.shape[2] != kt.shape[1] {
        Err(refused_shapes(Refusal::FlashCaches, kt.shape, v.shape))
    } else {
        Ok(())
    }
}

/// The counts and strides of the query rows fit their numbers, where they are
/// asked for.
pub open spec fn query_fits(q: TensorView, kt: TensorView, desc: FlashAttentionDesc) -> bool {
    let dh = kt.shape[1];
    match desc.token_major_heads {
        Some(heads) => heads != 0 ==> {
            let want = q.shape[0] * heads * dh;
            want <= u64::MAX && (q.len() == want ==> heads * dh <= u32::MAX)
        },
        None => q.shape.len() == 3 && q.shape[2] == dh ==> q.shape[1] * dh <= u32::MAX,
    }
}

/// The counts and strides of the output rows fit their numbers, where they
/// are asked for.
pub open spec fn output_fits(out: TensorView, dh: u32, layout: RowLayout, desc: FlashAttentionDesc) -> bool {
    desc.out_token_major_heads matches Some(heads) ==> heads != 0 && heads == layout.heads ==> {
        let want = layout.rows * heads * dh;
        want <= u64::MAX && (out.len() == want ==> heads * dh <= u32::MAX)
    }
}

/// The counts and strides of an attention that is not refused fit the numbers
/// that the shader takes.
pub open spec fn flash_fits(
    ctx: VulkanContext,
    q: TensorView,
    kt: TensorView,
    v: TensorView,
    out: TensorView,
    desc: FlashAttentionDesc,
) -> bool {
    io_result(ctx, OpName::FlashAttention, q, out) is Ok && flash_cache_result(ctx, kt, v) is Ok
        ==> {
        &&& query_fits(q, kt, desc)
        &&& query_layout(q, kt, desc) matches Ok(layout) ==> output_fits(
            out,
            kt.shape[1],
            layout,
            desc,
        )
    }
}

/// The dispatch of a flash attention: a column of workgroups over the query
/// rows for each head.
pub open spec fn flash_plan(
    ctx: VulkanContext,
    q: TensorView,
    kt: TensorView,
    v: TensorView,
    out: TensorView,
    desc: FlashAttentionDesc,
    force_simt: bool,
) -> Result<ElementwiseDispatch, ErrorView> {
    match io_result(ctx, OpName::FlashAttention, q, out) {
        Err(e) => Err(e),
        Ok(io_f16) => if let Err(e) = flash_cache_result(ctx, kt, v) {
            Err(e)
        } else {
            let kv_heads = kt.shape[0];
            let dh = kt.shape[1];
            let t_max = kt.shape[2];
            match query_layout(q, kt, desc) {
                Err(e) => Err(e),
                Ok(layout) => match output_strides(q, out, dh, layout, desc) {
                    Err(e) => Err(e),
                    Ok((o_head_stride, o_row_stride)) => if layout.heads % kv_heads != 0 {
                        Err(refused(Refusal::FlashGroups { heads: layout.heads, kv_heads }))
                    } else if desc.kv_len > t_max {
                        Err(refused(Refusal::FlashKvLen { kv_len: desc.kv_len, t_max }))
                    } else {
                        match flash_kernel(ctx, io_f16, kt.dtype, dh, force_simt) {
                            Err(e) => Err(e),
                            Ok((kernel, rows_per_wg)) => planned(
                                ctx,
                                kernel,
                                PushBlock::Flash(
                                    FlashPc {
                                        t_q: layout.rows,
                                        t_max,
                                        kv_len: desc.kv_len,
                                        pos_base: desc.pos_base,
                                        group_size: layout.heads / kv_heads,
                                        scale: desc.scale,
                                        q_head_stride: layout.head_stride,
                                        q_row_stride: layout.row_stride,
                                        o_head_stride,
                                        o_row_stride,
                                        q_ptr: q.buffer.address,
                                        kt_ptr: kt.buffer.address,
                                        v_ptr: v.buffer.address,
                                        out_ptr: out.buffer.address,
                                    },
                                ),
                                ceil_div(layout.rows as int, rows_per_wg as int) as u32,
                                layout.heads,
                            ),
                        }
                    },
                },
            }
        },
    }
}

/// A tensor on the device, stored as f16.
pub open spec fn pack_operand_result(ctx: VulkanContext, tensor: TensorView, role: Role) -> Result<
    (),
    ErrorView,
> {
    if let Err(e) = context_result(ctx, tensor, role) {
        Err(e)
    } else if tensor.dtype != DType::F16 {
        Err(refused(Refusal::PackStorage { role, got: tensor.dtype }))
    } else {
        Ok(())
    }
}

/// Width of a QKV row.
pub open spec fn qkv_width(desc: PrefillQkvPackDesc) -> int {
    desc.heads * desc.head_dim + 2 * (desc.kv_heads * desc.head_dim)
}

/// The position behind the last token of a pack, held at the largest position
/// that a number can name. A cache of that length takes every pack.
pub open spec fn clamped_end(pos_base: u32, tokens: u32) -> int {
    if pos_base + tokens > u32::MAX {
        u32::MAX as int
    } else {
        pos_base + tokens
    }
}

/// A row of queries, keys and values leaves room for three heads, so the table
/// entries that a pack asks for can be counted.
proof fn lemma_table_entries_fit(end: int, desc: PrefillQkvPackDesc)
    by (nonlinear_arith)
    requires
        0 <= end <= 2 * u32::MAX,
        desc.heads > 0,
        desc.kv_heads > 0,
        desc.rot_dim <= desc.head_dim,
        desc.heads * desc.head_dim + 2 * (desc.kv_heads * desc.head_dim) <= u32::MAX,
    ensures
        0 <= end * desc.rot_dim <= u64::MAX,
{
    assert(desc.heads * desc.head_dim >= desc.head_dim);
    assert(desc.kv_heads * desc.head_dim >= desc.head_dim);
    assert(3 * desc.rot_dim <= u32::MAX);
    assert(end * (3 * desc.rot_dim) <= (2 * u32::MAX) * u32::MAX);
    assert(3 * (end * desc.rot_dim) == end * (3 * desc.rot_dim));
}

/// The first check of a pack that fails.
pub open spec fn pack_refusal(
    ctx: VulkanContext,
    qkv: TensorView,
    table: TensorView,
    q: TensorView,
    kt: TensorView,
    v: TensorView,
    desc: PrefillQkvPackDesc,
) -> Option<ErrorView> {
    let op = OpName::PrefillQkvPack;
    let tokens = qkv.shape[0];
    let t_max = kt.shape[2];
    let needed = (desc.pos_base + tokens) * desc.rot_dim;
    if let Err(e) = pack_operand_result(ctx, qkv, Role::Qkv) {
        Some(e)
    } else if let Err(e) = pack_operand_result(ctx, q, Role::Q) {
        Some(e)
    } else if let Err(e) = pack_operand_result(ctx, kt, Role::Kt) {
        Some(e)
    } else if let Err(e) = pack_operand_result(ctx, v, Role::V) {
        Some(e)
    } else if let Err(e) = f32_result(ctx, table, op, Role::Table) {
        Some(e)
    } else if desc.heads == 0 || desc.kv_heads == 0 || desc.head_dim == 0 || desc.rot_dim == 0
        || desc.rot_dim % 2 != 0 || desc.rot_dim > desc.head_dim {
        Some(
            refused(
                Refusal::PackGeometry {
                    heads: desc.heads,
                    kv_heads: desc.kv_heads,
                    head_dim: desc.head_dim,
                    rot_dim: desc.rot_dim,
                },
            ),
        )
    } else if qkv.shape.len() != 2 {
        Some(refused_shapes(Refusal::PackQkvShape, qkv.shape, Seq::empty()))
    } else if qkv.shape[1] != qkv_width(desc) {
        Some(
            refused(Refusal::PackQkvWidth { width: qkv.shape[1], want: qkv_width(desc) as u32 }),
        )
    } else if q.shape != seq![desc.heads, tokens, desc.head_dim] {
        Some(
            refused_shapes(
                Refusal::PackQShape { heads: desc.heads, tokens, head_dim: desc.head_dim },
                q.shape,
                Seq::empty(),
            ),
        )
    } else if kt.shape.len() != 3 {
        Some(refused_shapes(Refusal::KtShape { op }, kt.shape, Seq::empty()))
    } else if v.shape.len() != 3 {
        Some(refused_shapes(Refusal::VShape { op }, v.shape, Seq::empty()))
    } else if kt.shape[0] != desc.kv_heads || v.shape[0] != desc.kv_heads || kt.shape[1]
        != desc.head_dim || v.shape[2] != desc.head_dim || v.shape[1] != t_max {
        Some(
            refused_shapes(
                Refusal::PackCaches { kv_heads: desc.kv_heads, head_dim: desc.head_dim },
                kt.shape,
                v.shape,
            ),
        )
    } else if clamped_end(desc.pos_base, tokens) > t_max {
        Some(refused(Refusal::PackPosition { pos_base: desc.pos_base, tokens, t_max }))
    } else if table.len() < needed {
        Some(
            refused(
                Refusal::RopeTable {
                    op,
                    len: table.len() as u64,
                    needed: needed as u64,
                    pos_base: desc.pos_base,
                    tokens,
                    rot_dim: desc.rot_dim,
                },
            ),
        )
    } else if desc.head_dim % 4 != 0 {
        Some(refused(Refusal::PackHeadDim { head_dim: desc.head_dim }))
    } else {
        None
    }
}

/// The operands and the geometry of a pack are such that its row width is
/// asked for.
pub open spec fn pack_has_width(
    ctx: VulkanContext,
    qkv: TensorView,
    table: TensorView,
    q: TensorView,
    kt: TensorView,
    v: TensorView,
    desc: PrefillQkvPackDesc,
) -> bool {
    &&& pack_operand_result(ctx, qkv, Role::Qkv) is Ok
    &&& pack_operand_result(ctx, q, Role::Q) is Ok
    &&& pack_operand_result(ctx, kt, Role::Kt) is Ok
    &&& pack_operand_result(ctx, v, Role::V) is Ok
    &&& f32_result(ctx, table, OpName::PrefillQkvPack, Role::Table) is Ok
    &&& desc.heads != 0
    &&& desc.kv_heads != 0
    &&& desc.head_dim != 0
    &&& desc.rot_dim != 0
    &&& desc.rot_dim % 2 == 0
    &&& desc.rot_dim <= desc.head_dim
    &&& qkv.shape.len() == 2
}

/// The lane counts of a pack fit the numbers that the shader takes.
pub open spec fn lanes_fit(tokens: u32, desc: PrefillQkvPackDesc) -> bool {
    &&& tokens * desc.heads <= u32::MAX
    &&& tokens * desc.heads * (desc.rot_dim as int / 2) <= u32::MAX
    &&& tokens * desc.kv_heads <= u32::MAX
    &&& tokens * desc.kv_heads * (desc.rot_dim as int / 2) <= u32::MAX
    &&& tokens * desc.kv_heads * (desc.head_dim as int / 4) <= u32::MAX
}

/// The widths and lane counts of a pack that is not refused fit their
/// numbers.
pub open spec fn pack_fits(
    ctx: VulkanContext,
    qkv: TensorView,
    table: TensorView,
    q: TensorView,
    kt: TensorView,
    v: TensorView,
    desc: PrefillQkvPackDesc,
) -> bool {
    &&& pack_has_width(ctx, qkv, table, q, kt, v, desc) ==> qkv_width(desc) <= u32::MAX
    &&& pack_refusal(ctx, qkv, table, q, kt, v, desc) is None ==> lanes_fit(qkv.shape[0], desc)
}

/// Threads of a pack: a lane pair of Q or K or four lanes of V each, held at
/// the largest number.
pub open spec fn pack_threads(tokens: u32, desc: PrefillQkvPackDesc) -> int {
    let all = tokens * desc.heads * (desc.rot_dim as int / 2) + tokens * desc.kv_heads * (
    desc.rot_dim as int / 2) + tokens * desc.kv_heads * (desc.head_dim as int / 4);
    if all > u32::MAX {
        u32::MAX as int
    } else {
        all
    }
}

/// The dispatch of a prefill pack.
pub open spec fn pack_plan(
    ctx: VulkanContext,
    qkv: TensorView,
    table: TensorView,
    q: TensorView,
    kt: TensorView,
    v: TensorView,
    desc: PrefillQkvPackDesc,
) -> Result<ElementwiseDispatch, ErrorView> {
    match pack_refusal(ctx, qkv, table, q, kt, v, desc) {
        Some(e) => Err(e),
        None => {
            let tokens = qkv.shape[0];
            planned(
                ctx,
                ElementwiseKernel::Simt(Op::PrefillQkvPack),
                PushBlock::PrefillQkvPack(
                    PrefillQkvPackPc {
                        tokens,
                        heads: desc.heads,
                        kv_heads: desc.kv_heads,
                        head_dim: desc.head_dim,
                        rot_dim: desc.rot_dim,
                        pos_base: desc.pos_base,
                        qkv_stride: qkv.shape[1],
                        t_max: kt.shape[2],
                        k_offset: (desc.heads * desc.head_dim) as u32,
                        v_offset: (desc.heads * desc.head_dim + desc.kv_heads * desc.head_dim) as u32,
                        qkv_ptr: qkv.buffer.address,
                        q_ptr: q.buffer.address,
                        kt_ptr: kt.buffer.address,
                        v_ptr: v.buffer.address,
                        table_ptr: table.buffer.address,
                    },
                ),
                ceil_div(pack_threads(tokens, desc), WG as int) as u32,
                1,
            )
        },
    }
}

/// Decides [`query_fits`].
fn check_query(q: &Tensor, kt: &Tensor, desc: FlashAttentionDesc) -> (r: bool)
    requires
        kt@.shape.len() == 3,
    ensures
        r == query_fits(q@, kt@, desc),
{
    let q_len: u64 = q.len();
    let shape: &[u32] = q.shape();
    let dh: u32 = kt.shape()[1];
    match desc.token_major_heads {
        Some(heads) => {
            if heads == 0 {
                return true;
            }
            let want: u128 = mul3(shape[0], heads, dh);
            want <= u64::MAX as u128 && (q_len as u128 != want || mul_wide(heads as u64, dh)
                <= u32::MAX as u128)
        }
        None => shape.len() != 3 || shape[2] != dh || mul_wide(shape[1] as u64, dh)
            <= u32::MAX as u128,
    }
}

/// Decides [`output_fits`].
fn check_output(out: &Tensor, dh: u32, layout: RowLayout, desc: FlashAttentionDesc) -> (r: bool)
    ensures
        r == output_fits(out@, dh, layout, desc),
{
    match desc.out_token_major_heads {
        Some(heads) => {
            if heads == 0 || heads != layout.heads {
                return true;
            }
            let want: u128 = mul3(layout.rows, heads, dh);
            want <= u64::MAX as u128 && (out.len() as u128 != want || mul_wide(heads as u64, dh)
                <= u32::MAX as u128)
        }
        None => true,
    }
}

fn query_rows(q: &Tensor, kt: &Tensor, desc: FlashAttentionDesc) -> (r: Result<RowLayout, Error>)
    requires
        kt@.shape.len() == 3,
        query_fits(q@, kt@, desc),
    ensures
        outcome(r) == query_layout(q@, kt@, desc),
{
    let none: [u32; 0] = [];
    assert(none@ =~= Seq::<u32>::empty());
    let q_len: u64 = q.len();
    let shape: &[u32] = q.shape();
    let dh: u32 = kt.shape()[1];
    match desc.token_major_heads {
        Some(heads) => {
            if heads == 0 {
                return Err(Error::new(Refusal::FlashHeadsZero));
            }
            let t_q: u32 = shape[0];
            proof {
                lemma_mul_u32(t_q as int, heads as int);
            }
            let want: u64 = t_q as u64 * heads as u64 * dh as u64;
            if q_len != want {
                return Err(
                    Error::with_shapes(
                        Refusal::FlashTokenMajorQ { t_q, heads, dh },
                        shape,
                        none.as_slice(),
                    ),
                );
            }
            Ok(RowLayout { heads, rows: t_q, head_stride: dh, row_stride: heads * dh })
        }
        None => {
            if shape.len() != 3 {
                return Err(Error::with_shapes(Refusal::FlashQShape, shape, none.as_slice()));
            }
            if shape[2] != dh {
                return Err(
                    Error::with_shapes(
                        Refusal::FlashQDim { q_dh: shape[2], dh },
                        shape,
                        kt.shape(),
                    ),
                );
            }
            Ok(
                RowLayout {
                    heads: shape[0],
                    rows: shape[1],
                    head_stride: shape[1] * dh,
                    row_stride: dh,
                },
            )
        }
    }
}

fn output_rows(q: &Tensor, out: &Tensor, kt: &Tensor, layout: RowLayout, desc: FlashAttentionDesc) -> (r:
    Result<(u32, u32), Error>)
    requires
        kt@.shape.len() == 3,
        output_fits(out@, kt@.shape[1], layout, desc),
    ensures
        outcome(r) == output_strides(q@, out@, kt@.shape[1], layout, desc),
{
    let none: [u32; 0] = [];
    assert(none@ =~= Seq::<u32>::empty());
    let dh: u32 = kt.shape()[1];
    match desc.out_token_major_heads {
        Some(heads) => {
            if heads == 0 {
                return Err(Error::new(Refusal::FlashOutHeadsZero));
            }
            if heads != layout.heads {
                return Err(
                    Error::new(Refusal::FlashOutHeads { out_heads: heads, heads: layout.heads }),
                );
            }
            proof {
                lemma_mul_u32(layout.rows as int, heads as int);
            }
            let want: u64 = layout.rows as u64 * heads as u64 * dh as u64;
            if out.len() != want {
                return Err(
                    Error::with_shapes(
                        Refusal::FlashTokenMajorOut { t_q: layout.rows, heads, dh },
                        out.shape(),
                        none.as_slice(),
                    ),
                );
            }
            Ok((dh, heads * dh))
        }
        None => {
            if desc.token_major_heads.is_some() {
                if out.len() != q.len() {
                    return Err(
                        Error::with_shapes(Refusal::FlashOutMatch, out.shape(), q.shape()),
                    );
                }
            } else if !same_shape(out.shape(), q.shape()) {
                return Err(Error::with_shapes(Refusal::FlashOutShape, out.shape(), q.shape()));
            }
            Ok((layout.head_stride, layout.row_stride))
        }
    }
}

fn flash_variant(ctx: &VulkanContext, io_f16: bool, kv: DType, dh: u32, force_simt: bool) -> (r: Result<
    (ElementwiseKernel, u32),
    Error,
>)
    ensures
        outcome(r) == flash_kernel(*ctx, io_f16, kv, dh, force_simt),
        r matches Ok((_, rows)) ==> rows > 0,
{
    if !ctx.buffer_device_address_enabled {
        return Err(Error::new(Refusal::ElementwiseNeedsAddresses));
    }
    let kv_f16: bool = kv == DType::F16;
    if io_f16 {
        if !(kv_f16 && dh == 64 && !force_simt) {
            return Err(Error::new(Refusal::FlashF16Variant { kv, dh }));
        }
        if !ctx.coopmat2_enabled {
            return Err(Error::new(Refusal::FlashF16NeedsCm2));
        }
        return Ok((ElementwiseKernel::Cm2(Cm2Op::FlashKv16Io16Dh64), 64));
    }
    let (simt, cm2): (Op, Cm2Op) = if dh == 64 {
        if kv_f16 {
            (Op::FlashKv16Dh64, Cm2Op::FlashKv16Dh64)
        } else {
            (Op::FlashDh64, Cm2Op::FlashDh64)
        }
    } else if dh == 128 {
        if kv_f16 {
            (Op::FlashKv16Dh128, Cm2Op::FlashKv16Dh128)
        } else {
            (Op::FlashDh128, Cm2Op::FlashDh128)
        }
    } else {
        return Err(Error::new(Refusal::FlashHeadDim { dh }));
    };
    if ctx.coopmat2_enabled && !force_simt {
        Ok((ElementwiseKernel::Cm2(cm2), 64))
    } else {
        Ok((ElementwiseKernel::Simt(simt), 128))
    }
}

impl Executor {
    fn check_flash_caches(&self, kt: &Tensor, v: &Tensor) -> (r: Result<(), Error>)
        ensures
            outcome(r) == flash_cache_result(self@.ctx, kt@, v@),
    {
        let op: OpName = OpName::FlashAttention;
        if let Err(e) = self.validate_tensor_context(kt, Role::Kt) {
            return Err(e);
        }
        if let Err(e) = self.validate_tensor_context(v, Role::V) {
            return Err(e);
        }
        if kt.dtype() != v.dtype() {
            return Err(Error::new(Refusal::CacheStorage { op, kt: kt.dtype(), v: v.dtype() }));
        }
        let none: [u32; 0] = [];
        assert(none@ =~= Seq::<u32>::empty());
        let ks: &[u32] = kt.shape();
        let vs: &[u32] = v.shape();
        if ks.len() != 3 {
            return Err(Error::with_shapes(Refusal::KtShape { op }, ks, none.as_slice()));
        }
        if vs.len() != 3 {
            return Err(Error::with_shapes(Refusal::VShape { op }, vs, none.as_slice()));
        }
        if vs[1] != ks[2] || vs[0] != ks[0] || vs[2] != ks[1] {
            return Err(Error::with_shapes(Refusal::FlashCaches, ks, vs));
        }
        Ok(())
    }

    /// Decides [`flash_fits`].
    pub fn check_flash_fits(
        &self,
        q: &Tensor,
        kt: &Tensor,
        v: &Tensor,
        out: &Tensor,
        desc: FlashAttentionDesc,
    ) -> (r: bool)
        ensures
            r == flash_fits(self@.ctx, q@, kt@, v@, out@, desc),
    {
        if self.io_dtype_f16(OpName::FlashAttention, q, out).is_err() || self.check_flash_caches(
            kt,
            v,
        ).is_err() {
            return true;
        }
        if !check_query(q, kt, desc) {
            return false;
        }
        match query_rows(q, kt, desc) {
            Ok(layout) => check_output(out, kt.shape()[1], layout, desc),
            Err(_) => true,
        }
    }

    /// Plans a causal attention over whole query blocks: `kt` is
    /// `[H_kv, dh, T_max]`, `v` is `[H_kv, T_max, dh]`, and the query heads are
    /// a multiple of the cache heads. `dh` has to be 64 or 128. With
    /// `force_simt` the cooperative-matrix kernels are not taken.
    pub fn plan_flash_attention(
        &self,
        q: &Tensor,
        kt: &Tensor,
        v: &Tensor,
        out: &Tensor,
        desc: FlashAttentionDesc,
        force_simt: bool,
    ) -> (r: Result<ElementwiseDispatch, Error>)
        requires
            flash_fits(self@.ctx, q@, kt@, v@, out@, desc),
        ensures
            outcome(r) == flash_plan(self@.ctx, q@, kt@, v@, out@, desc, force_simt),
    {
        let io_f16: bool = match self.io_dtype_f16(OpName::FlashAttention, q, out) {
            Ok(b) => b,
            Err(e) => return Err(e),
        };
        if let Err(e) = self.check_flash_caches(kt, v) {
            return Err(e);
        }
        let kt_len: u64 = kt.len();
        let shape: &[u32] = kt.shape();
        let kv_heads: u32 = shape[0];
        let dh: u32 = shape[1];
        let t_max: u32 = shape[2];
        assert(kt@.shape[0] != 0);
        let layout: RowLayout = match query_rows(q, kt, desc) {
            Ok(layout) => layout,
            Err(e) => return Err(e),
        };
        let (o_head_stride, o_row_stride): (u32, u32) = match output_rows(q, out, kt, layout, desc) {
            Ok(strides) => strides,
            Err(e) => return Err(e),
        };
        if layout.heads % kv_heads != 0 {
            return Err(Error::new(Refusal::FlashGroups { heads: layout.heads, kv_heads }));
        }
        if desc.kv_len > t_max {
            return Err(Error::new(Refusal::FlashKvLen { kv_len: desc.kv_len, t_max }));
        }
        let (kernel, rows_per_wg): (ElementwiseKernel, u32) = match flash_variant(
            self.context(),
            io_f16,
            kt.dtype(),
            dh,
            force_simt,
        ) {
            Ok(variant) => variant,
            Err(e) => return Err(e),
        };
        self.plan_elementwise(
            kernel,
            PushBlock::Flash(
                FlashPc {
                    t_q: layout.rows,
                    t_max,
                    kv_len: desc.kv_len,
                    pos_base: desc.pos_base,
                    group_size: layout.heads / kv_heads,
                    scale: desc.scale,
                    q_head_stride: layout.head_stride,
                    q_row_stride: layout.row_stride,
                    o_head_stride,
                    o_row_stride,
                    q_ptr: q.device_address(),
                    kt_ptr: kt.device_address(),
                    v_ptr: v.device_address(),
                    out_ptr: out.device_address(),
                },
            ),
            div_ceil(layout.rows, rows_per_wg),
            layout.heads,
        )
    }

    fn check_pack_operand(&self, tensor: &Tensor, role: Role) -> (r: Result<(), Error>)
        ensures
            outcome(r) == pack_operand_result(self@.ctx, tensor@, role),
    {
        if let Err(e) = self.validate_tensor_context(tensor, role) {
            return Err(e);
        }
        if tensor.dtype() != DType::F16 {
            return Err(Error::new(Refusal::PackStorage { role, got: tensor.dtype() }));
        }
        Ok(())
    }

    fn check_prefill_qkv_pack(
        &self,
        qkv: &Tensor,
        table: &Tensor,
        q: &Tensor,
        kt: &Tensor,
        v: &Tensor,
        desc: PrefillQkvPackDesc,
    ) -> (r: Result<(), Error>)
        requires
            pack_has_width(self@.ctx, qkv@, table@, q@, kt@, v@, desc) ==> qkv_width(desc)
                <= u32::MAX,
        ensures
            outcome(r) == (match pack_refusal(self@.ctx, qkv@, table@, q@, kt@, v@, desc) {
                Some(e) => Err(e),
                None => Ok(()),
            }),
    {
        let op: OpName = OpName::PrefillQkvPack;
        if let Err(e) = self.check_pack_operand(qkv, Role::Qkv) {
            return Err(e);
        }
        if let Err(e) = self.check_pack_operand(q, Role::Q) {
            return Err(e);
        }
        if let Err(e) = self.check_pack_operand(kt, Role::Kt) {
            return Err(e);
        }
        if let Err(e) = self.check_pack_operand(v, Role::V) {
            return Err(e);
        }
        if let Err(e) = self.ensure_f32(table, op, Role::Table) {
            return Err(e);
        }
        if desc.heads == 0 || desc.kv_heads == 0 || desc.head_dim == 0 || desc.rot_dim == 0
            || desc.rot_dim % 2 != 0 || desc.rot_dim > desc.head_dim {
            return Err(
                Error::new(
                    Refusal::PackGeometry {
                        heads: desc.heads,
                        kv_heads: desc.kv_heads,
                        head_dim: desc.head_dim,
                        rot_dim: desc.rot_dim,
                    },
                ),
            );
        }
        let none: [u32; 0] = [];
        assert(none@ =~= Seq::<u32>::empty());
        let qkv_shape: &[u32] = qkv.shape();
        if qkv_shape.len() != 2 {
            return Err(
                Error::with_shapes(Refusal::PackQkvShape, qkv_shape, none.as_slice()),
            );
        }
        let tokens: u32 = qkv_shape[0];
        proof {
            lemma_mul_u32(desc.heads as int, desc.head_dim as int);
            lemma_mul_u32(desc.kv_heads as int, desc.head_dim as int);
        }
        let embd: u32 = desc.heads * desc.head_dim;
        let kv_dim: u32 = desc.kv_heads * desc.head_dim;
        let want: u32 = embd + 2 * kv_dim;
        if qkv_shape[1] != want {
            return Err(Error::new(Refusal::PackQkvWidth { width: qkv_shape[1], want }));
        }
        let q_shape: &[u32] = q.shape();
        let want_q: [u32; 3] = [desc.heads, tokens, desc.head_dim];
        assert(want_q@ =~= seq![desc.heads, tokens, desc.head_dim]);
        if !same_shape(q_shape, want_q.as_slice()) {
            return Err(
                Error::with_shapes(
                    Refusal::PackQShape { heads: desc.heads, tokens, head_dim: desc.head_dim },
                    q_shape,
                    none.as_slice(),
                ),
            );
        }
        let ks: &[u32] = kt.shape();
        let vs: &[u32] = v.shape();
        if ks.len() != 3 {
            return Err(Error::with_shapes(Refusal::KtShape { op }, ks, none.as_slice()));
        }
        if vs.len() != 3 {
            return Err(Error::with_shapes(Refusal::VShape { op }, vs, none.as_slice()));
        }
        let t_max: u32 = ks[2];
        if ks[0] != desc.kv_heads || vs[0] != desc.kv_heads || ks[1] != desc.head_dim || vs[2]
            != desc.head_dim || vs[1] != t_max {
            return Err(
                Error::with_shapes(
                    Refusal::PackCaches { kv_heads: desc.kv_heads, head_dim: desc.head_dim },
                    ks,
                    vs,
                ),
            );
        }
        let end: u64 = desc.pos_base as u64 + tokens as u64;
        let clamped: u32 = desc.pos_base.saturating_add(tokens);
        if clamped > t_max {
            return Err(
                Error::new(Refusal::PackPosition { pos_base: desc.pos_base, tokens, t_max }),
            );
        }
        proof {
            lemma_table_entries_fit(end as int, desc);
        }
        let needed: u64 = end * desc.rot_dim as u64;
        let have: u64 = table.len();
        if have < needed {
            return Err(
                Error::new(
                    Refusal::RopeTable {
                        op,
                        len: have,
                        needed,
                        pos_base: desc.pos_base,
                        tokens,
                        rot_dim: desc.rot_dim,
                    },
                ),
            );
        }
        if desc.head_dim % 4 != 0 {
            return Err(Error::new(Refusal::PackHeadDim { head_dim: desc.head_dim }));
        }
        Ok(())
    }

    /// Decides [`pack_fits`].
    pub fn check_pack_fits(
        &self,
        qkv: &Tensor,
        table: &Tensor,
        q: &Tensor,
        kt: &Tensor,
        v: &Tensor,
        desc: PrefillQkvPackDesc,
    ) -> (r: bool)
        ensures
            r == pack_fits(self@.ctx, qkv@, table@, q@, kt@, v@, desc),
    {
        let shape: &[u32] = qkv.shape();
        let asked: bool = self.check_pack_operand(qkv, Role::Qkv).is_ok()
            && self.check_pack_operand(q, Role::Q).is_ok() && self.check_pack_operand(
            kt,
            Role::Kt,
        ).is_ok() && self.check_pack_operand(v, Role::V).is_ok() && self.ensure_f32(
            table,
            OpName::PrefillQkvPack,
            Role::Table,
        ).is_ok() && desc.heads != 0 && desc.kv_heads != 0 && desc.head_dim != 0 && desc.rot_dim
            != 0 && desc.rot_dim % 2 == 0 && desc.rot_dim <= desc.head_dim && shape.len() == 2;
        if !asked {
            return true;
        }
        let q_width: u128 = mul_wide(desc.heads as u64, desc.head_dim);
        let kv_width: u128 = mul_wide(desc.kv_heads as u64, desc.head_dim);
        proof {
            lemma_mul_u32(desc.heads as int, desc.head_dim as int);
            lemma_mul_u32(desc.kv_heads as int, desc.head_dim as int);
        }
        if q_width + 2 * kv_width > u32::MAX as u128 {
            return false;
        }
        if self.check_prefill_qkv_pack(qkv, table, q, kt, v, desc).is_err() {
            return true;
        }
        let tokens: u32 = shape[0];
        let most: u128 = u32::MAX as u128;
        mul_wide(tokens as u64, desc.heads) <= most && mul_wide(tokens as u64, desc.kv_heads)
            <= most && mul3(tokens, desc.heads, desc.rot_dim / 2) <= most && mul3(
            tokens,
            desc.kv_heads,
            desc.rot_dim / 2,
        ) <= most && mul3(tokens, desc.kv_heads, desc.head_dim / 4) <= most
    }

    /// Plans a prefill pack: rotate Q into head-major rows, rotate K into the
    /// transposed cache and copy V into its cache, all from one concatenated
    /// row per token. f16 activations and caches only.
    pub fn plan_prefill_qkv_pack(
        &self,
        qkv: &Tensor,
        table: &Tensor,
        q: &Tensor,
        kt: &Tensor,
        v: &Tensor,
        desc: PrefillQkvPackDesc,
    ) -> (r: Result<ElementwiseDispatch, Error>)
        requires
            pack_fits(self@.ctx, qkv@, table@, q@, kt@, v@, desc),
        ensures
            outcome(r) == pack_plan(self@.ctx, qkv@, table@, q@, kt@, v@, desc),
    {
        if let Err(e) = self.check_prefill_qkv_pack(qkv, table, q, kt, v, desc) {
            return Err(e);
        }
        let shape: &[u32] = qkv.shape();
        let tokens: u32 = shape[0];
        proof {
            lemma_mul_u32(desc.heads as int, desc.head_dim as int);
            lemma_mul_u32(desc.kv_heads as int, desc.head_dim as int);
        }
        let embd: u32 = desc.heads * desc.head_dim;
        let kv_dim: u32 = desc.kv_heads * desc.head_dim;
        let q_pairs: u32 = tokens * desc.heads * (desc.rot_dim / 2);
        let k_pairs: u32 = tokens * desc.kv_heads * (desc.rot_dim / 2);
        let v_vec4s: u32 = tokens * desc.kv_heads * (desc.head_dim / 4);
        let all: u64 = q_pairs as u64 + k_pairs as u64 + v_vec4s as u64;
        let threads: u32 = if all > u32::MAX as u64 { u32::MAX } else { all as u32 };
        self.plan_elementwise(
            ElementwiseKernel::Simt(Op::PrefillQkvPack),
            PushBlock::PrefillQkvPack(
                PrefillQkvPackPc {
                    tokens,
                    heads: desc.heads,
                    kv_heads: desc.kv_heads,
                    head_dim: desc.head_dim,
                    rot_dim: desc.rot_dim,
                    pos_base: desc.pos_base,
                    qkv_stride: shape[1],
                    t_max: kt.shape()[2],
                    k_offset: embd,
                    v_offset: embd + kv_dim,
                    qkv_ptr: qkv.device_address(),
                    q_ptr: q.device_address(),
                    kt_ptr: kt.device_address(),
                    v_ptr: v.device_address(),
                    table_ptr: table.device_address(),
                },
            ),
            div_ceil(threads, WG),
            1,
        )
    }
}

/// The offset of an element of a query or output row.
pub open spec fn row_offset(head_stride: int, row_stride: int, head: int, row: int, lane: int) -> int {
    head * head_stride + row * row_stride + lane
}

/// Every query element that a planned attention reads lies inside `q`.
pub proof fn query_rows_stay_inside(
    q: TensorView,
    kt: TensorView,
    desc: FlashAttentionDesc,
    head: int,
    row: int,
    lane: int,
)
    requires
        kt.shape.len() == 3,
        query_fits(q, kt, desc),
        query_layout(q, kt, desc) is Ok,
        0 <= head < query_layout(q, kt, desc)->Ok_0.heads,
        0 <= row < query_layout(q, kt, desc)->Ok_0.rows,
        0 <= lane < kt.shape[1],
    ensures
        ({
            let l = query_layout(q, kt, desc)->Ok_0;
            0 <= row_offset(l.head_stride as int, l.row_stride as int, head, row, lane) < q.len()
        }),
{
    let l = query_layout(q, kt, desc)->Ok_0;
    let dh = kt.shape[1] as int;
    let h = l.heads as int;
    let t = l.rows as int;
    if desc.token_major_heads is Some {
        assert(q.len() == t * h * dh);
        assert(0 <= head * dh + row * (h * dh) + lane < t * h * dh) by (nonlinear_arith)
            requires
                0 <= head < h,
                0 <= row < t,
                0 <= lane < dh,
        ;
    } else {
        assert(q.shape =~= seq![q.shape[0], q.shape[1], q.shape[2]]);
        let s2 = q.shape.drop_last();
        let s1 = s2.drop_last();
        assert(s1.drop_last() =~= Seq::<u32>::empty());
        reveal_with_fuel(crate::tensor::shape_product, 4);
        assert(q.len() == (1 * h) * t * dh) by {
            assert(s2.last() == q.shape[1] && s1.last() == q.shape[0]);
        }
        assert(0 <= head * (t * dh) + row * dh + lane < (1 * h) * t * dh) by (nonlinear_arith)
            requires
                0 <= head < h,
                0 <= row < t,
                0 <= lane < dh,
        ;
    }
}

/// Every output element that a planned attention writes lies inside `out`.
pub proof fn output_rows_stay_inside(
    q: TensorView,
    kt: TensorView,
    out: TensorView,
    desc: FlashAttentionDesc,
    head: int,
    row: int,
    lane: int,
)
    requires
        kt.shape.len() == 3,
        query_fits(q, kt, desc),
        query_layout(q, kt, desc) is Ok,
        output_fits(out, kt.shape[1], query_layout(q, kt, desc)->Ok_0, desc),
        output_strides(q, out, kt.shape[1], query_layout(q, kt, desc)->Ok_0, desc) is Ok,
        0 <= head < query_layout(q, kt, desc)->Ok_0.heads,
        0 <= row < query_layout(q, kt, desc)->Ok_0.rows,
        0 <= lane < kt.shape[1],
    ensures
        ({
            let l = query_layout(q, kt, desc)->Ok_0;
            let (head_stride, row_stride) = output_strides(q, out, kt.shape[1], l, desc)->Ok_0;
            0 <= row_offset(head_stride as int, row_stride as int, head, row, lane) < out.len()
        }),
{
    let l = query_layout(q, kt, desc)->Ok_0;
    let dh = kt.shape[1] as int;
    let h = l.heads as int;
    let t = l.rows as int;
    if desc.out_token_major_heads is Some {
        assert(out.len() == t * h * dh);
        assert(0 <= head * dh + row * (h * dh) + lane < t * h * dh) by (nonlinear_arith)
            requires
                0 <= head < h,
                0 <= row < t,
                0 <= lane < dh,
        ;
    } else {
        query_rows_stay_inside(q, kt, desc, head, row, lane);
    }
}

} // verus!
