//! Which requests are taken: each exactly where its operands and its geometry
//! allow it and the device can carry it out.

use crate::context::VulkanContext;
use crate::dtype::{DType, Scalar};
use crate::error::{OpName, Role};
use crate::executor::elementwise::attn::{attn_fits, attn_plan, AttnOperands};
use crate::executor::elementwise::common::{
    AttnDecodeDesc, BinaryOp, CopyDesc, FlashAttentionDesc, PrefillQkvPackDesc, RopeDesc,
    RopeScatterDesc, SoftmaxMask,
};
use crate::executor::elementwise::flash::{flash_fits, flash_plan, pack_fits, pack_plan};
use crate::executor::elementwise::gemv_chain::{chain_refusal, job_refusal};
use crate::executor::elementwise::ops::{
    argmax_plan, binary_plan, copy_plan, gather_plan, norm_plan, rope_fits, rope_plan,
    rope_scatter_plan, scatter_fits, softmax_plan,
};
use crate::executor::graph_ops::{pos_refusal, ExecOp};
use crate::executor::plan::{slot_kernel, ExecutorView};
use crate::executor::recording::dispatch_result;
use crate::executor::splitk2::split_plan;
use crate::executor::streamk_exec::stream_k_dims;
use crate::executor::transfer::transfer_plan;
use crate::matmul::api::{
    Activation, EpilogueBinary, MatmulCall, MatmulOp, MatmulStore, MatmulStoreDesc,
};
use crate::matmul::resolution::{resolve_call, resolve_op, ResolvedMatmul};
use crate::pipeline::catalog::{
    name_a_f16, name_aligned, name_packed, name_row, name_weights_f16, KERNEL_COUNT,
};
use crate::semantics::attention::{query_heads, query_rows};
use crate::semantics::matmul::{cols, matrices, rows};
use crate::semantics::memory::{allocated, lemma_groups_enough, lemma_rows};
use crate::tensor::{Buffer, TensorView};
use vstd::prelude::*;

verus! {

/// A tensor lives on a device.
pub open spec fn on(ctx: VulkanContext, t: TensorView) -> bool {
    t.buffer.context == ctx.id
}

/// A device takes pointers and a grid that covers `items` by `each` to a
/// workgroup, in `columns` columns.
pub open spec fn takes(ctx: VulkanContext, items: int, each: int, columns: int) -> bool {
    &&& ctx.buffer_device_address_enabled
    &&& items <= ctx.max_groups_x * each
    &&& columns <= ctx.max_groups_y
}

/// A softmax is planned exactly where input and output are f32 tensors of one
/// shape on the device, a causal mask divides the rows evenly, and the device
/// takes a workgroup for each row.
pub proof fn softmax_is_planned_exactly(
    ctx: VulkanContext,
    input: TensorView,
    output: TensorView,
    scale: Scalar,
    mask: SoftmaxMask,
)
    requires
        allocated(input),
    ensures
        softmax_plan(ctx, input, output, scale, mask) is Ok <==> {
            let rows = input.len() as int / input.shape.last() as int;
            &&& on(ctx, input) && on(ctx, output)
            &&& input.dtype == DType::F32 && output.dtype == DType::F32
            &&& input.shape == output.shape
            &&& mask matches SoftmaxMask::Causal { rows_per_group, .. } ==> rows_per_group > 0 && rows
                % rows_per_group as int == 0
            &&& takes(ctx, rows, 1, 1)
        },
{
    lemma_rows(input);
    assert(ctx.max_groups_x * 1 == ctx.max_groups_x);
}

/// A norm is planned exactly where input and output are tensors of one shape
/// and storage on the device, the weight and the bias are f32 rows of the last
/// dimension's length, a layer norm is over f32, and the device takes a
/// workgroup for each row.
pub proof fn norm_is_planned_exactly(
    ctx: VulkanContext,
    op: OpName,
    input: TensorView,
    weight: TensorView,
    bias: Option<TensorView>,
    output: TensorView,
    eps: Scalar,
)
    requires
        allocated(input),
    ensures
        norm_plan(ctx, op, input, weight, bias, output, eps) is Ok <==> {
            let rows = input.len() as int / input.shape.last() as int;
            &&& on(ctx, input) && on(ctx, output) && on(ctx, weight)
            &&& input.dtype == output.dtype && weight.dtype == DType::F32
            &&& input.shape == output.shape && weight.len() == input.shape.last()
            &&& bias matches Some(b) ==> on(ctx, b) && b.dtype == DType::F32 && b.len()
                == input.shape.last() && input.dtype == DType::F32
            &&& takes(ctx, rows, 1, 1)
        },
{
    lemma_rows(input);
    assert(ctx.max_groups_x * 1 == ctx.max_groups_x);
}

/// Whether an input falls into whole tokens of a rotation and the table
/// reaches the last of them.
pub open spec fn rotates(input: TensorView, table: TensorView, desc: RopeDesc) -> bool {
    let token = desc.heads * desc.head_dim;
    let tokens = input.len() as int / token;
    &&& 2 <= desc.rot_dim <= desc.head_dim && desc.rot_dim % 2 == 0
    &&& token != 0 && input.len() as int % token == 0 && tokens <= u32::MAX
    &&& (desc.pos_base + tokens) * desc.rot_dim <= table.len()
}

/// A rotation is planned exactly where input and output are tensors of one
/// shape and storage on the device, the table is f32, the input falls into
/// whole tokens that the table reaches, and the device takes a thread for each
/// lane pair.
pub proof fn rope_is_planned_exactly(
    ctx: VulkanContext,
    input: TensorView,
    table: TensorView,
    output: TensorView,
    desc: RopeDesc,
)
    requires
        rope_fits(ctx, input, table, output, desc),
    ensures
        rope_plan(ctx, input, table, output, desc) is Ok <==> {
            let tokens = input.len() as int / (desc.heads * desc.head_dim);
            &&& on(ctx, input) && on(ctx, output) && on(ctx, table)
            &&& input.dtype == output.dtype && table.dtype == DType::F32
            &&& input.shape == output.shape
            &&& rotates(input, table, desc)
            &&& takes(ctx, tokens * desc.heads * (desc.rot_dim as int / 2), 256, 1)
        },
{
    if rotates(input, table, desc) {
        lemma_pairs(ctx, input, desc);
    }
}

proof fn lemma_pairs(ctx: VulkanContext, input: TensorView, desc: RopeDesc)
    requires
        desc.heads * desc.head_dim != 0,
    ensures
        ({
            let tokens = input.len() as int / (desc.heads * desc.head_dim);
            let pairs = tokens * desc.heads * (desc.rot_dim as int / 2);
            &&& 0 <= crate::arith::ceil_div(pairs, 256) <= pairs
            &&& crate::arith::ceil_div(pairs, 256) <= ctx.max_groups_x <==> pairs
                <= ctx.max_groups_x * 256
        }),
{
    let token = desc.heads * desc.head_dim;
    assert(token > 0) by (nonlinear_arith)
        requires
            token == desc.heads * desc.head_dim,
            token != 0,
            desc.heads >= 0,
            desc.head_dim >= 0,
    ;
    let tokens = input.len() as int / token;
    vstd::arithmetic::div_mod::lemma_div_pos_is_pos(input.len() as int, token);
    let pairs = tokens * desc.heads * (desc.rot_dim as int / 2);
    assert(pairs >= 0) by (nonlinear_arith)
        requires
            pairs == tokens * desc.heads * (desc.rot_dim as int / 2),
            tokens >= 0,
            desc.heads >= 0,
            desc.rot_dim as int / 2 >= 0,
    ;
    lemma_groups_enough(pairs, 256, ctx.max_groups_x as int);
    crate::arith::lemma_ceil_div(pairs, 256);
}

/// A scattering rotation is planned exactly where an f32 input falls into
/// whole tokens that an f32 table reaches, the farthest lane of the farthest
/// head of the last token lies inside a destination of its own, and the device
/// takes a thread for each lane pair.
pub proof fn rope_scatter_is_planned_exactly(
    ctx: VulkanContext,
    input: TensorView,
    table: TensorView,
    dst: TensorView,
    desc: RopeDesc,
    scatter: RopeScatterDesc,
)
    requires
        scatter_fits(ctx, input, table, dst, desc, scatter),
    ensures
        rope_scatter_plan(ctx, input, table, dst, desc, scatter) is Ok <==> {
            let tokens = input.len() as int / (desc.heads * desc.head_dim);
            &&& on(ctx, input) && on(ctx, table) && on(ctx, dst)
            &&& input.dtype == DType::F32 && table.dtype == DType::F32
            &&& input.buffer.handle != dst.buffer.handle
            &&& rotates(input, table, desc)
            &&& scatter.dst_offset + (tokens - 1) * scatter.dst_strides[0] + (desc.heads - 1)
                * scatter.dst_strides[1] + (desc.head_dim - 1) * scatter.dst_strides[2] < dst.len()
            &&& takes(ctx, tokens * desc.heads * (desc.rot_dim as int / 2), 256, 1)
        },
{
    if rotates(input, table, desc) {
        lemma_pairs(ctx, input, desc);
    }
}

/// A strided copy is planned exactly where there is something to copy, the
/// farthest element of either side lies inside its tensor, the tensors do not
/// share a buffer, and the device takes a thread for each element.
pub proof fn copy_is_planned_exactly(ctx: VulkanContext, src: TensorView, dst: TensorView, desc: CopyDesc)
    ensures
        copy_plan(ctx, src, dst, desc) is Ok <==> {
            let (x, y, z) = (desc.extent[0] as int, desc.extent[1] as int, desc.extent[2] as int);
            &&& on(ctx, src) && on(ctx, dst) && src.buffer.handle != dst.buffer.handle
            &&& x > 0 && y > 0 && z > 0 && x * y * z <= u32::MAX
            &&& desc.src_offset + (x - 1) * desc.src_strides[0] + (y - 1) * desc.src_strides[1] + (z
                - 1) * desc.src_strides[2] < src.len()
            &&& desc.dst_offset + (x - 1) * desc.dst_strides[0] + (y - 1) * desc.dst_strides[1] + (z
                - 1) * desc.dst_strides[2] < dst.len()
            &&& takes(ctx, x * y * z, 256, 1)
        },
{
    let total = desc.extent[0] * desc.extent[1] * desc.extent[2];
    assert(total >= 0) by (nonlinear_arith)
        requires
            total == desc.extent[0] * desc.extent[1] * desc.extent[2],
            desc.extent[0] >= 0,
            desc.extent[1] >= 0,
            desc.extent[2] >= 0,
    ;
    lemma_groups_enough(total, 256, ctx.max_groups_x as int);
    crate::arith::lemma_ceil_div(total, 256);
}

/// A binary combination is planned exactly where the three tensors are on the
/// device, stored alike and equally long, and the device takes a thread for
/// each four elements.
pub proof fn binary_is_planned_exactly(
    ctx: VulkanContext,
    a: TensorView,
    b: TensorView,
    out: TensorView,
    op: BinaryOp,
)
    ensures
        binary_plan(ctx, a, b, out, op) is Ok <==> {
            &&& on(ctx, a) && on(ctx, b) && on(ctx, out)
            &&& a.dtype == out.dtype && b.dtype == out.dtype
            &&& a.len() == out.len() && b.len() == out.len() && out.len() <= u32::MAX
            &&& takes(ctx, out.len() as int, 1024, 1)
        },
{
    lemma_groups_enough(a.len() as int, 1024, ctx.max_groups_x as int);
    crate::arith::lemma_ceil_div(a.len() as int, 1024);
}

/// An argmax is planned exactly where an f32 input and the cell are on the
/// device and the elements can be counted.
pub proof fn argmax_is_planned_exactly(ctx: VulkanContext, input: TensorView, result: Buffer)
    ensures
        argmax_plan(ctx, input, result) is Ok <==> {
            &&& on(ctx, input) && input.dtype == DType::F32 && result.context == ctx.id
            &&& input.len() <= u32::MAX
            &&& takes(ctx, 1, 1, 1)
        },
{
    assert(ctx.max_groups_x * 1 == ctx.max_groups_x);
}

/// An embedding gather is planned exactly where the table is a matrix, the
/// output is one row of its width or a stack of them, the list holds a token
/// for each row, and the device takes a column of workgroups for each.
pub proof fn gather_is_planned_exactly(
    ctx: VulkanContext,
    tokens: Buffer,
    table: TensorView,
    out: TensorView,
)
    ensures
        gather_plan(ctx, tokens, table, out) is Ok <==> {
            let rows = if out.shape.len() == 1 {
                1int
            } else {
                out.shape[0] as int
            };
            &&& on(ctx, table) && on(ctx, out) && tokens.context == ctx.id
            &&& table.shape.len() == 2
            &&& out.shape.len() == 1 || out.shape.len() == 2
            &&& out.shape[out.shape.len() - 1] == table.shape[1]
            &&& rows > 0 && 4 * rows <= tokens.bytes
            &&& takes(ctx, table.shape[1] as int, 1024, rows)
        },
{
    lemma_groups_enough(table.shape[1] as int, 1024, ctx.max_groups_x as int);
    crate::arith::lemma_ceil_div(table.shape[1] as int, 1024);
}

/// A flash attention is planned exactly where queries and output are on the
/// device and stored alike, the caches are and fit each other, the query heads
/// divide evenly among the cache heads, the caches hold the valid positions,
/// the shapes are those of the layouts, and the device has a kernel for the
/// storage and the head dimension that covers the query rows.
#[verifier::rlimit(40)]
pub proof fn flash_is_planned_exactly(
    ctx: VulkanContext,
    q: TensorView,
    kt: TensorView,
    v: TensorView,
    out: TensorView,
    desc: FlashAttentionDesc,
    force_simt: bool,
)
    requires
        allocated(q),
        allocated(kt),
        flash_fits(ctx, q, kt, v, out, desc),
    ensures
        flash_plan(ctx, q, kt, v, out, desc, force_simt) is Ok <==> {
            let dh = kt.shape[1] as int;
            let heads = query_heads(q, desc);
            let rows = query_rows(q, desc);
            let matrix = ctx.coopmat2_enabled && !force_simt;
            &&& on(ctx, q) && on(ctx, kt) && on(ctx, v) && on(ctx, out)
            &&& q.dtype == out.dtype && kt.dtype == v.dtype
            &&& kt.shape.len() == 3 && v.shape.len() == 3
            &&& v.shape[0] == kt.shape[0] && v.shape[1] == kt.shape[2] && v.shape[2] == kt.shape[1]
            &&& match desc.token_major_heads {
                Some(h) => h > 0 && q.len() == rows * h * dh,
                None => q.shape.len() == 3 && q.shape[2] == dh,
            }
            &&& match desc.out_token_major_heads {
                Some(h) => h > 0 && h == heads && out.len() == rows * h * dh,
                None => if desc.token_major_heads is Some {
                    out.len() == q.len()
                } else {
                    out.shape == q.shape
                },
            }
            &&& heads % kt.shape[0] as int == 0
            &&& desc.kv_len <= kt.shape[2]
            &&& match q.dtype {
                DType::F16 => kt.dtype == DType::F16 && dh == 64 && matrix,
                DType::F32 => dh == 64 || dh == 128,
            }
            &&& takes(
                ctx,
                rows,
                if matrix {
                    64
                } else {
                    128
                },
                heads,
            )
        },
{
    let rows = query_rows(q, desc);
    lemma_groups_enough(rows, 64, ctx.max_groups_x as int);
    lemma_groups_enough(rows, 128, ctx.max_groups_x as int);
    crate::arith::lemma_ceil_div(rows, 64);
    crate::arith::lemma_ceil_div(rows, 128);
    assert(kt.shape.len() == 3 ==> kt.shape[0] != 0);
}

/// A transfer moves a slice exactly where the tensor is on the device and its
/// buffer holds the slice's numbers in its storage; nothing is moved of an
/// empty one.
pub proof fn transfers_are_planned_exactly(
    x: ExecutorView,
    op: OpName,
    role: Role,
    tensor: TensorView,
    len: usize,
)
    ensures
        ({
            let bytes = len * (match tensor.dtype {
                DType::F32 => 4int,
                DType::F16 => 2,
            });
            match transfer_plan(x, op, role, tensor, len) {
                Ok(None) => on(x.ctx, tensor) && len == 0,
                Ok(Some(size)) => on(x.ctx, tensor) && len > 0 && size == bytes && bytes
                    <= tensor.buffer.bytes,
                Err(_) => !on(x.ctx, tensor) || len > 0 && bytes > tensor.buffer.bytes,
            }
        }),
{
}

/// A call goes by Stream-K exactly where it multiplies single matrices that
/// whole tiles cover, overwrites its output, and the device has addresses and
/// atomic adds.
pub proof fn stream_k_takes_whole_tiles(x: ExecutorView, call: MatmulCall, op: OpName)
    ensures
        stream_k_dims(x, call, op) is Ok <==> {
            let (a, b, c) = (call.a@, call.b@, call.c@);
            &&& on(x.ctx, a) && on(x.ctx, b) && on(x.ctx, c)
            &&& c.buffer.handle != a.buffer.handle && c.buffer.handle != b.buffer.handle
            &&& !call.accumulate
            &&& resolve_call(call) is Ok
            &&& matrices(c) == 1
            &&& rows(c) % 128 == 0 && cols(c) % 128 == 0 && cols(a) % 32 == 0
            &&& x.ctx.buffer_device_address_enabled && x.ctx.atomic_float_add_enabled
        },
{
    if resolve_call(call) is Ok {
        crate::semantics::matmul::call_resolves_exactly(call);
        crate::semantics::matmul::resolved_extents_walk_the_operands(call, 0, 0, 0, 0);
    }
}

/// An operation is resolved exactly where its call is, the bias is a row of
/// the output or one for each matrix, the second operand has the output's
/// shape, a norm of A comes without a bias and without a scaled second
/// operand, and a fused store comes alone, divides the row into even heads,
/// and stays inside its table and its destination.
pub proof fn operation_resolves_exactly(op: MatmulOp)
    ensures
        resolve_op(op) is Ok <==> {
            let c = op.call.c@;
            &&& resolve_call(op.call) is Ok
            &&& op.epilogue.bias matches Some(bias) ==> {
                ||| bias@.shape.len() == 1 && bias@.shape[0] == cols(c)
                ||| bias@.shape.len() == 2 && bias@.shape[0] == matrices(c) && bias@.shape[1] == cols(
                    c,
                )
            }
            &&& match op.epilogue.binary {
                EpilogueBinary::Absent => true,
                EpilogueBinary::AddScaled { d, .. } => d@.shape == c.shape,
                EpilogueBinary::Mul { d } => d@.shape == c.shape,
            }
            &&& op.normed_a is Some ==> op.epilogue.bias is None && !(op.epilogue.binary is AddScaled)
            &&& !(op.store is Absent) ==> {
                let desc = match op.store {
                    MatmulStore::Rope { desc, .. } => desc,
                    MatmulStore::Scatter { desc, .. } => desc,
                    MatmulStore::RopeScatter { desc, .. } => desc,
                    MatmulStore::Absent => MatmulStoreDesc::zero(),
                };
                let h = desc.head_dim as int;
                &&& !op.call.accumulate && op.epilogue.bias is None && op.epilogue.activation
                    == Activation::Absent && op.epilogue.binary is Absent
                &&& h > 0 && h % 2 == 0 && cols(c) % h == 0
                &&& match op.store {
                    MatmulStore::Rope { table, .. } => table@.len() >= (desc.pos_base + 1) * h,
                    MatmulStore::RopeScatter { table, .. } => table@.len() >= (desc.pos_base + 1)
                        * h,
                    _ => true,
                }
                &&& {
                    let last = desc.pos_base * desc.pos_scale + (cols(c) / h - 1) * desc.stride_head
                        + (h - 1) * desc.stride_dim;
                    match op.store {
                        MatmulStore::Scatter { dst, .. } => last < dst@.len(),
                        MatmulStore::RopeScatter { dst, .. } => last < dst@.len(),
                        _ => true,
                    }
                }
            }
        },
{
    if resolve_call(op.call) is Ok {
        let call = op.call;
        crate::semantics::matmul::call_resolves_exactly(call);
        crate::semantics::matmul::resolved_extents_walk_the_operands(call, 0, 0, 0, 0);
        let dims = resolve_call(call)->Ok_0;
        if let Some(bias) = op.epilogue.bias {
            let s = bias@.shape;
            assert(s.len() == 1 && s[0] == dims.n ==> s =~= seq![dims.n]);
            assert(s.len() == 2 && s[0] == dims.batch && s[1] == dims.n ==> s =~= seq![
                dims.batch,
                dims.n,
            ]);
        }
    }
}

/// A kernel carries an operation out exactly where it reads its operands as
/// they are stored, implements what is fused into it, covers an output without
/// edges where it has no edge handling, and the device takes its grid.
pub proof fn kernels_carry_out_what_they_implement(
    ctx: VulkanContext,
    op: MatmulOp,
    dims: ResolvedMatmul,
    slot: usize,
)
    requires
        slot < KERNEL_COUNT,
        slot_kernel(slot).name@ != "v3_128x128_bk8_static"@,
    ensures
        dispatch_result(ctx, op, dims, slot) is Ok <==> {
            let kernel = slot_kernel(slot);
            let name = kernel.name@;
            let plain = op.epilogue.bias is None && op.epilogue.activation == Activation::Absent
                && op.epilogue.binary is Absent;
            &&& name_weights_f16(name) == dims.b_f16 && name_a_f16(name) == dims.a_f16 && name_packed(
                name,
            ) == dims.packed_b
            &&& name_aligned(name) ==> dims.m % kernel.tile_m == 0 && dims.n % kernel.tile_n == 0
                && dims.k % kernel.tile_k == 0
            &&& dims.b_f16 || !plain ==> ctx.buffer_device_address_enabled
            &&& !plain ==> kernel.fuses_epilogue()
            &&& op.normed_a is Some ==> name_row(name)
            &&& !(op.store is Absent) ==> kernel.fuses_store()
            &&& dims.n <= ctx.max_groups_x * kernel.tile_n
            &&& dims.m <= ctx.max_groups_y * kernel.tile_m
            &&& dims.batch <= ctx.max_groups_z
        },
{
    let kernel = slot_kernel(slot);
    lemma_groups_enough(dims.n as int, kernel.tile_n as int, ctx.max_groups_x as int);
    lemma_groups_enough(dims.m as int, kernel.tile_m as int, ctx.max_groups_y as int);
    crate::arith::lemma_ceil_div(dims.n as int, kernel.tile_n as int);
    crate::arith::lemma_ceil_div(dims.m as int, kernel.tile_m as int);
}

/// The position cell that an operation of a mixed graph reads, or 0.
pub open spec fn cell_of(op: ExecOp) -> u64 {
    match op {
        ExecOp::Rope { desc, .. } => desc.pos_addr,
        ExecOp::RopeScatter { desc, .. } => desc.pos_addr,
        ExecOp::CopyStrided { desc, .. } => desc.pos_addr,
        ExecOp::AttnDecode { desc, .. } => desc.pos_addr,
        ExecOp::Matmul(op) => match op.store {
            MatmulStore::Absent => 0,
            MatmulStore::Rope { desc, .. } => desc.pos_addr,
            MatmulStore::Scatter { desc, .. } => desc.pos_addr,
            MatmulStore::RopeScatter { desc, .. } => desc.pos_addr,
        },
        _ => 0,
    }
}

/// A graph is prepared with a position cell exactly where no operation reads
/// another one.
pub proof fn graphs_read_the_prepared_cell(ops: Seq<ExecOp>, prepared: u64, upto: int)
    requires
        0 <= upto <= ops.len(),
    ensures
        pos_refusal(ops, prepared, upto) is None <==> forall|i: int|
            0 <= i < upto ==> cell_of(#[trigger] ops[i]) == 0 || cell_of(ops[i]) == prepared,
    decreases upto,
{
    if upto > 0 {
        graphs_read_the_prepared_cell(ops, prepared, upto - 1);
        let last = ops[upto - 1];
        assert(cell_of(last) == crate::executor::graph_ops::pos_used(last));
    }
}

/// A prefill pack is planned exactly where all but the table are f16 tensors
/// of the geometry's shapes on the device, the rotated lanes come in pairs and
/// the lanes in fours, the tokens have their places in the caches and in the
/// table, and the device takes the threads.
#[verifier::rlimit(40)]
pub proof fn pack_is_planned_exactly(
    ctx: VulkanContext,
    qkv: TensorView,
    table: TensorView,
    q: TensorView,
    kt: TensorView,
    v: TensorView,
    desc: PrefillQkvPackDesc,
)
    requires
        pack_fits(ctx, qkv, table, q, kt, v, desc),
    ensures
        pack_plan(ctx, qkv, table, q, kt, v, desc) is Ok <==> {
            let tokens = qkv.shape[0] as int;
            let dh = desc.head_dim as int;
            let threads = tokens * desc.heads * (desc.rot_dim as int / 2) + tokens * desc.kv_heads
                * (desc.rot_dim as int / 2) + tokens * desc.kv_heads * (dh / 4);
            &&& on(ctx, qkv) && on(ctx, table) && on(ctx, q) && on(ctx, kt) && on(ctx, v)
            &&& qkv.dtype == DType::F16 && q.dtype == DType::F16 && kt.dtype == DType::F16
                && v.dtype == DType::F16 && table.dtype == DType::F32
            &&& desc.heads > 0 && desc.kv_heads > 0 && dh > 0 && dh % 4 == 0
            &&& desc.rot_dim > 0 && desc.rot_dim % 2 == 0 && desc.rot_dim <= dh
            &&& qkv.shape.len() == 2 && qkv.shape[1] == desc.heads * dh + 2 * (desc.kv_heads * dh)
            &&& q.shape == seq![desc.heads, qkv.shape[0], desc.head_dim]
            &&& kt.shape.len() == 3 && kt.shape[0] == desc.kv_heads && kt.shape[1] == dh
            &&& v.shape == seq![desc.kv_heads, kt.shape[2], desc.head_dim]
            &&& desc.pos_base + tokens <= kt.shape[2] || kt.shape[2] == u32::MAX
            &&& (desc.pos_base + tokens) * desc.rot_dim <= table.len()
            &&& takes(
                ctx,
                if threads <= u32::MAX {
                    threads
                } else {
                    u32::MAX as int
                },
                256,
                1,
            )
        },
{
    let tokens = qkv.shape[0] as int;
    let r = desc.rot_dim as int;
    let dh = desc.head_dim as int;
    let threads = tokens * desc.heads * (r / 2) + tokens * desc.kv_heads * (r / 2) + tokens
        * desc.kv_heads * (dh / 4);
    assert(threads >= 0) by (nonlinear_arith)
        requires
            threads == tokens * desc.heads * (r / 2) + tokens * desc.kv_heads * (r / 2) + tokens
                * desc.kv_heads * (dh / 4),
            tokens >= 0,
            r >= 0,
            dh >= 0,
            desc.heads >= 0,
            desc.kv_heads >= 0,
    ;
    let held = if threads <= u32::MAX {
        threads
    } else {
        u32::MAX as int
    };
    lemma_groups_enough(held, 256, ctx.max_groups_x as int);
    crate::arith::lemma_ceil_div(held, 256);
    if v.shape.len() == 3 && v.shape[0] == desc.kv_heads && v.shape[1] == kt.shape[2] && v.shape[2]
        == dh {
        assert(v.shape =~= seq![desc.kv_heads, kt.shape[2], desc.head_dim]);
    }
}

/// A decode attention is planned exactly where queries, output and scratch are
/// f32 tensors on the device, the caches are stored alike and fit each other
/// with heads of sixty-four lanes, at most eight query rows of whole heads go
/// to each cache head, the caches hold the valid positions, scratch holds the
/// partial sums, and the device takes both grids.
#[verifier::rlimit(40)]
pub proof fn decode_is_planned_exactly(ctx: VulkanContext, o: AttnOperands, desc: AttnDecodeDesc)
    requires
        allocated(o.kt),
        attn_fits(ctx, o, desc),
    ensures
        attn_plan(ctx, o, desc) is Ok <==> {
            let heads = o.kt.shape[0] as int;
            let group = o.q.len() as int / (heads * 64);
            let parts = (desc.kv_len + 31) / 32;
            let chunks = if desc.pos_addr != 0 || parts > 32 {
                32int
            } else if parts < 8 {
                8
            } else {
                parts
            };
            &&& on(ctx, o.q) && on(ctx, o.kt) && on(ctx, o.v) && on(ctx, o.scratch) && on(ctx, o.out)
            &&& o.q.dtype == DType::F32 && o.scratch.dtype == DType::F32 && o.out.dtype == DType::F32
            &&& o.kt.dtype == o.v.dtype
            &&& o.kt.shape.len() == 3 && o.kt.shape[1] == 64
            &&& o.v.shape == seq![o.kt.shape[0], o.kt.shape[2], o.kt.shape[1]]
            &&& o.q.len() as int % (heads * 64) == 0 && group <= 8 && o.out.len() == o.q.len()
            &&& 0 < desc.kv_len <= o.kt.shape[2]
            &&& heads * chunks * group * 66 <= o.scratch.len()
            &&& takes(ctx, chunks, 1, heads)
            &&& takes(ctx, heads * group, 1, 1)
        },
{
    let heads = o.kt.shape[0] as int;
    assert(o.kt.shape[0] != 0);
    let group = o.q.len() as int / (heads * 64);
    vstd::arithmetic::div_mod::lemma_div_pos_is_pos(o.q.len() as int, heads * 64);
    assert(heads * group >= 0) by (nonlinear_arith)
        requires
            heads >= 0,
            group >= 0,
    ;
    assert(ctx.max_groups_x * 1 == ctx.max_groups_x);
    let shape = o.v.shape;
    if shape.len() == 3 && shape[0] == o.kt.shape[0] && shape[1] == o.kt.shape[2] && shape[2]
        == o.kt.shape[1] {
        assert(shape =~= seq![o.kt.shape[0], o.kt.shape[2], o.kt.shape[1]]);
    }
    if o.kt.shape[1] == 64 {
        assert(heads * o.kt.shape[1] == heads * 64);
    }
}

/// An operation can be a job of a chain exactly where it is a row times a
/// matrix of plain f16 weights that overwrites its f32 output, with nothing
/// fused into it but a norm or a SiLU or a second operand, and not a norm with
/// a scaled second operand.
pub proof fn jobs_are_taken_exactly(ctx: VulkanContext, op: MatmulOp, index: usize)
    ensures
        job_refusal(ctx, op, index) is None <==> {
            let c = op.call.c@;
            &&& crate::executor::validation::op_context_result(ctx, op) is Ok
            &&& op.store is Absent && !op.call.accumulate && !op.packed_b && op.epilogue.bias is None
            &&& op.call.a@.dtype == DType::F32 && op.call.b@.dtype == DType::F16 && c.dtype
                == DType::F32
            &&& resolve_op(op) is Ok
            &&& matrices(c) == 1 && rows(c) == 1
            &&& op.epilogue.activation == Activation::Absent || op.epilogue.activation
                == Activation::Silu
        },
{
    operation_resolves_exactly(op);
    if resolve_call(op.call) is Ok {
        crate::semantics::matmul::call_resolves_exactly(op.call);
        crate::semantics::matmul::resolved_extents_walk_the_operands(op.call, 0, 0, 0, 0);
    }
}

/// A chain is taken exactly where the device has the memory model and the
/// addresses for it, there are one to eight jobs, and each can be one.
pub proof fn chains_are_taken_exactly(ctx: VulkanContext, ops: Seq<MatmulOp>)
    ensures
        chain_refusal(ctx, ops) is None <==> {
            &&& ctx.memory_model_device_scope_enabled && ctx.buffer_device_address_enabled
            &&& 1 <= ops.len() <= 8
            &&& forall|i: int|
                0 <= i < ops.len() ==> job_refusal(ctx, #[trigger] ops[i], i as usize) is None
        },
{
    lemma_jobs(ctx, ops, ops.len() as int);
}

proof fn lemma_jobs(ctx: VulkanContext, ops: Seq<MatmulOp>, upto: int)
    requires
        0 <= upto <= ops.len(),
    ensures
        crate::executor::elementwise::gemv_chain::jobs_refusal(ctx, ops, upto) is None <==> forall|
            i: int,
        |
            0 <= i < upto ==> job_refusal(ctx, #[trigger] ops[i], i as usize) is None,
    decreases upto,
{
    if upto > 0 {
        lemma_jobs(ctx, ops, upto - 1);
        let last = ops[upto - 1];
        assert(job_refusal(ctx, last, (upto - 1) as usize) == job_refusal(
            ctx,
            ops[upto - 1],
            (upto - 1) as usize,
        ));
    }
}

/// A split of a resolved matmul is planned exactly where there are at least
/// two splits and no more than K has elements, the partial planes and the
/// output can be addressed, and the device takes both grids.
pub proof fn splits_are_planned_exactly(ctx: VulkanContext, dims: ResolvedMatmul, splits: u32)
    requires
        dims.batch > 0,
        dims.m > 0,
        dims.n > 0,
    ensures
        split_plan(ctx, dims, splits) is Ok <==> {
            let total = dims.batch * (dims.m * dims.n);
            let tile = if dims.m >= 128 && dims.n >= 128 {
                128int
            } else {
                64
            };
            &&& 2 <= splits <= 0xFFFF && splits <= dims.k
            &&& total * splits <= 0x1_0000_0000 && total <= u32::MAX
            &&& dims.n <= ctx.max_groups_x * tile && dims.m <= ctx.max_groups_y * tile
            &&& dims.batch * splits <= ctx.max_groups_z
            &&& total <= ctx.max_groups_x * 1024
        },
{
    let total = dims.batch * (dims.m * dims.n);
    if 2 <= splits <= dims.k {
        crate::executor::splitk2::lemma_scratch_result(dims.batch, dims.m, dims.n, dims.k, splits);
    }
    assert(dims.m * dims.n * dims.batch == total) by (nonlinear_arith)
        requires
            total == dims.batch * (dims.m * dims.n),
    ;
    assert(dims.batch * dims.m * dims.n == total) by (nonlinear_arith)
        requires
            total == dims.batch * (dims.m * dims.n),
    ;
    assert(total >= 0) by (nonlinear_arith)
        requires
            total == dims.batch * (dims.m * dims.n),
            dims.m >= 0,
            dims.n >= 0,
            dims.batch >= 0,
    ;
    let tile = crate::executor::splitk2::stage1_tile(dims.m, dims.n) as int;
    lemma_groups_enough(dims.n as int, tile, ctx.max_groups_x as int);
    lemma_groups_enough(dims.m as int, tile, ctx.max_groups_y as int);
    lemma_groups_enough(total, 1024, ctx.max_groups_x as int);
    crate::arith::lemma_ceil_div(dims.n as int, tile);
    crate::arith::lemma_ceil_div(dims.m as int, tile);
    crate::arith::lemma_ceil_div(total, 1024);
}

} // verus!
