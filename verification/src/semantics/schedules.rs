//! What split, Stream-K, persistent and chained dispatches do to the operands
//! of a call.

use crate::context::VulkanContext;
use crate::dtype::DType;
use crate::error::{ErrorView, OpName};
use crate::executor::elementwise::gemv_chain::{
    chain_dispatch, chain_groups, chain_jobs, chain_refusal, job_flags, job_of, job_refusal,
    lemma_jobs_resolve,
};
use crate::executor::elementwise::pc::{GemvJob, PushBlock};
use crate::executor::graph::{graph_commands, GraphStep, SplitSlot};
use crate::executor::plan::{ExecutorView, OpPlan};
use crate::executor::reduction::{split_request, SplitRequest};
use crate::executor::splitk2::{split_commands, split_plan, SplitK2Commands, SplitK2Dispatch};
use crate::executor::streamk_exec::{
    dp_only_schedule, stream_k_commands, stream_k_dims, stream_k_plan, StreamKCommands,
};
use crate::executor::streamk_schedule::schedule_result;
use crate::matmul::api::{Activation, EpilogueBinary, MatmulCall, MatmulOp};
use crate::matmul::resolution::{resolve_call, resolve_op, ResolvedMatmul};
use crate::persistent::dispatch_of;
use crate::semantics::elementwise::width;
use crate::semantics::matmul::{
    cell, cols, matrices, resolved_extents_walk_the_operands, rows, walk,
};
use crate::semantics::memory::{covers, element, lemma_covers};
use vstd::prelude::*;

verus! {

/// Whether both stages of a split carry out a call by way of scratch: stage 1
/// reads the elements of A and B that the product asks for, scales them, and
/// writes one partial plane of the output for each split into scratch; the
/// reducer reads scratch and writes C. `b`, `i`, `j` and `p` name an element
/// of the output and a term of its product.
pub open spec fn splits_the_call(
    s: SplitK2Commands,
    call: MatmulCall,
    splits: u32,
    scratch: u64,
    b: int,
    i: int,
    j: int,
    p: int,
) -> bool {
    let (a, w, c) = (call.a@, call.b@, call.c@);
    let tile = if s.use_m128 {
        128int
    } else {
        64
    };
    &&& s.stage1.m == rows(c) && s.stage1.n == cols(c) && s.stage1.k == cols(a)
    &&& walk(s.stage1.a_ptr, width(a.dtype), s.stage1.batch_stride_a, s.stage1.k, b, i, p)
        == element(a, cell(a, b, i, p))
    &&& walk(s.stage1.b_ptr, width(w.dtype), s.stage1.batch_stride_b, s.stage1.n, b, p, j)
        == element(w, cell(w, b, p, j))
    &&& s.stage1.a_ptr == a.buffer.address && s.stage1.b_ptr == w.buffer.address
    &&& s.stage1.c_ptr == scratch && s.reduce.scratch_ptr == scratch
    &&& s.reduce.c_ptr == c.buffer.address
    &&& s.stage1.alpha == call.alpha
    &&& s.stage1.flags as int / 0x1_0000 == splits && s.stage1.flags % 0x1_0000 == 0
    &&& s.stage1.d_ptr == 0 && s.stage1.bias_ptr == 0 && s.stage1.store_dst_ptr == 0
    &&& s.reduce.num_splits == splits
    &&& s.reduce.mn == rows(c) * cols(c)
    &&& s.reduce.total == matrices(c) * (rows(c) * cols(c))
    &&& covers(s.stage1_x as int, tile, cols(c))
    &&& covers(s.stage1_y as int, tile, rows(c))
    &&& s.stage1_z == matrices(c) * splits
    &&& covers(s.reduce_groups as int, 1024, matrices(c) * (rows(c) * cols(c)))
    &&& s.use_m128 <==> rows(c) >= 128 && cols(c) >= 128
}

/// The two dispatches of a planned split carry out the call whose addresses
/// they are given, and the planned scratch holds a partial plane of four-byte
/// elements for each split. No limit of the device is exceeded.
pub proof fn split_stages_carry_out_the_call(
    ctx: VulkanContext,
    call: MatmulCall,
    splits: u32,
    scratch: u64,
    b: int,
    i: int,
    j: int,
    p: int,
)
    requires
        resolve_call(call) is Ok,
        split_plan(ctx, resolve_call(call)->Ok_0, splits) is Ok,
        0 <= b < matrices(call.c@),
        0 <= i < rows(call.c@),
        0 <= j < cols(call.c@),
        0 <= p < cols(call.a@),
    ensures
        ({
            let dims = resolve_call(call)->Ok_0;
            let plan = split_plan(ctx, dims, splits)->Ok_0;
            let s = split_commands(
                call.alpha,
                dims,
                plan,
                call.a@.buffer.address,
                call.b@.buffer.address,
                call.c@.buffer.address,
                scratch,
            );
            &&& splits_the_call(s, call, splits, scratch, b, i, j, p)
            &&& plan.splits == splits && 2 <= splits <= 0xFFFF && splits <= cols(call.a@)
            &&& plan.scratch_bytes == 4 * (matrices(call.c@) * (rows(call.c@) * cols(call.c@))
                * splits)
            &&& s.stage1_x <= ctx.max_groups_x && s.stage1_y <= ctx.max_groups_y && s.stage1_z
                <= ctx.max_groups_z && s.reduce_groups <= ctx.max_groups_x
        }),
{
    resolved_extents_walk_the_operands(call, b, i, j, p);
    crate::matmul::resolution::resolved_is_addressable(
        call.a@.shape,
        call.b@.shape,
        call.c@.shape,
    );
    let dims = resolve_call(call)->Ok_0;
    lemma_split_plan(ctx, dims, splits);
}

proof fn lemma_split_plan(ctx: VulkanContext, dims: ResolvedMatmul, splits: u32)
    requires
        dims.batch > 0,
        dims.m > 0,
        dims.n > 0,
        split_plan(ctx, dims, splits) is Ok,
    ensures
        ({
            let plan = split_plan(ctx, dims, splits)->Ok_0;
            let total = dims.batch * (dims.m * dims.n);
            let tile = if dims.m >= 128 && dims.n >= 128 {
                128int
            } else {
                64
            };
            &&& plan.splits == splits && 2 <= splits <= 0xFFFF && splits <= dims.k
            &&& plan.use_m128 <==> dims.m >= 128 && dims.n >= 128
            &&& covers(plan.gx as int, tile, dims.n as int)
            &&& covers(plan.gy as int, tile, dims.m as int)
            &&& plan.gz == dims.batch * splits
            &&& plan.mn == dims.m * dims.n
            &&& plan.total == total
            &&& covers(plan.reduce_groups as int, 1024, total)
            &&& plan.scratch_bytes == 4 * (total * splits)
            &&& plan.gx <= ctx.max_groups_x && plan.gy <= ctx.max_groups_y && plan.gz
                <= ctx.max_groups_z && plan.reduce_groups <= ctx.max_groups_x
        }),
{
    let total = dims.batch * (dims.m * dims.n);
    crate::executor::splitk2::lemma_scratch_result(dims.batch, dims.m, dims.n, dims.k, splits);
    assert(dims.m * dims.n * dims.batch == total) by (nonlinear_arith)
        requires
            total == dims.batch * (dims.m * dims.n),
    ;
    assert(dims.batch * dims.m * dims.n == total) by (nonlinear_arith)
        requires
            total == dims.batch * (dims.m * dims.n),
    ;
    assert(total >= 0 && dims.m * dims.n >= 0 && dims.m * dims.n <= total) by (nonlinear_arith)
        requires
            total == dims.batch * (dims.m * dims.n),
            dims.m > 0,
            dims.n > 0,
            dims.batch > 0,
    ;
    assert(total * splits >= 0) by (nonlinear_arith)
        requires
            total >= 0,
            splits >= 0,
    ;
    assert(dims.batch * splits >= 0) by (nonlinear_arith);
    lemma_covers(dims.n as int, 64);
    lemma_covers(dims.n as int, 128);
    lemma_covers(dims.m as int, 64);
    lemma_covers(dims.m as int, 128);
    lemma_covers(total, 1024);
}

/// Whether a Stream-K call is carried out: the block's extents are those of
/// the operands, the elements that the shader reads and writes are those that
/// the product asks for, and C holds nothing when the tail begins to add into
/// it.
pub open spec fn streams_the_call(s: StreamKCommands, call: MatmulCall, i: int, j: int, p: int) -> bool {
    let (a, w, c) = (call.a@, call.b@, call.c@);
    &&& s.push.m * s.push.k == a.len() && s.push.k * s.push.n == w.len() && s.push.m * s.push.n
        == c.len()
    &&& s.push.m == rows(c) && s.push.n == cols(c) && s.push.k == cols(a)
    &&& walk(s.push.a_ptr, width(a.dtype), s.push.batch_stride_a, s.push.k, 0, i, p) == element(
        a,
        cell(a, 0, i, p),
    )
    &&& walk(s.push.b_ptr, width(w.dtype), s.push.batch_stride_b, s.push.n, 0, p, j) == element(
        w,
        cell(w, 0, p, j),
    )
    &&& walk(s.push.c_ptr, width(c.dtype), s.push.batch_stride_c, s.push.n, 0, i, j) == element(
        c,
        cell(c, 0, i, j),
    )
    &&& s.push.alpha == call.alpha && s.push.flags == 0 && !call.accumulate
    &&& s.push.n == s.push.n_tiles * 128
    &&& s.push.k == s.push.iters_per_tile * 32
    &&& s.push.dp_tiles_total <= (s.push.m / 128) * s.push.n_tiles
    &&& s.dp_rows * s.push.n_tiles == s.push.dp_tiles_total
    &&& s.tail_groups == s.push.g_sk
    &&& s.push.total_iters_sk == ((s.push.m / 128) * s.push.n_tiles - s.push.dp_tiles_total)
        * s.push.iters_per_tile
    &&& s.push.g_sk * s.push.iters_per_wg_sk + s.push.rem_sk == s.push.total_iters_sk
    &&& s.push.g_sk > 0 ==> s.push.rem_sk < s.push.g_sk
    &&& s.clear_c <==> s.tail_groups > 0
    &&& s.barrier <==> s.dp_rows > 0 && s.tail_groups > 0
    &&& s.tail_groups == 0 ==> s.push.dp_tiles_total == (s.push.m / 128) * s.push.n_tiles
    &&& s.total_flops == 2 * s.push.m * s.push.n * s.push.k
}

/// A Stream-K call carries out its product: every tile of the output belongs
/// to the data-parallel rectangle or to the tail, whose strips of K the
/// workgroups divide among themselves.
pub proof fn stream_k_carries_out_the_call(x: ExecutorView, call: MatmulCall, i: int, j: int, p: int)
    requires
        stream_k_plan(x, call) is Ok,
        0 <= i < rows(call.c@),
        0 <= j < cols(call.c@),
        0 <= p < cols(call.a@),
    ensures
        streams_the_call(stream_k_plan(x, call)->Ok_0, call, i, j, p),
        matrices(call.a@) == 1 && matrices(call.b@) == 1 && matrices(call.c@) == 1,
        x.ctx.buffer_device_address_enabled && x.ctx.atomic_float_add_enabled,
{
    let dims = stream_k_dims(x, call, OpName::RunMatmulsStreamK)->Ok_0;
    crate::executor::streamk_exec::stream_k_plan_is_sound(x, call);
    crate::executor::streamk_schedule::schedule_covers_every_tile(
        dims.m,
        dims.n,
        dims.k,
        128,
        128,
        32,
        crate::executor::streamk_exec::STREAMK_FALLBACK_SM_COUNT,
    );
    let s = stream_k_plan(x, call)->Ok_0;
    lemma_single(call, i, j, p);
    assert(s.push.g_sk * s.push.iters_per_wg_sk == s.push.iters_per_wg_sk * s.push.g_sk)
        by (nonlinear_arith);
}

proof fn lemma_single(call: MatmulCall, i: int, j: int, p: int)
    requires
        resolve_call(call) is Ok,
        resolve_call(call)->Ok_0.batch == 1,
        0 <= i < rows(call.c@),
        0 <= j < cols(call.c@),
        0 <= p < cols(call.a@),
    ensures
        ({
            let d = resolve_call(call)->Ok_0;
            let (a, w, c) = (call.a@, call.b@, call.c@);
            &&& matrices(a) == 1 && matrices(w) == 1 && matrices(c) == 1
            &&& d.m == rows(c) && d.n == cols(c) && d.k == cols(a)
            &&& a.len() == d.m * d.k && w.len() == d.k * d.n && c.len() == d.m * d.n
            &&& d.total_flops == 2 * d.m * d.n * d.k
            &&& walk(a.buffer.address, width(a.dtype), d.batch_stride_a, d.k, 0, i, p) == element(
                a,
                cell(a, 0, i, p),
            )
            &&& walk(w.buffer.address, width(w.dtype), d.batch_stride_b, d.n, 0, p, j) == element(
                w,
                cell(w, 0, p, j),
            )
            &&& walk(c.buffer.address, width(c.dtype), d.batch_stride_c, d.n, 0, i, j) == element(
                c,
                cell(c, 0, i, j),
            )
        }),
{
    crate::semantics::matmul::call_resolves_exactly(call);
    let d = resolve_call(call)->Ok_0;
    let (a, w, c) = (call.a@, call.b@, call.c@);
    crate::matmul::resolution::resolved_is_addressable(a.shape, w.shape, c.shape);
    assert(matrices(c) == 1);
    resolved_extents_walk_the_operands(call, 0, i, j, p);
    lemma_len(a);
    lemma_len(w);
    lemma_len(c);
    assert(2 * 1 * d.m * d.n * d.k == 2 * d.m * d.n * d.k);
}

proof fn lemma_len(t: crate::tensor::TensorView)
    requires
        t.shape.len() == 2 || t.shape.len() == 3,
        matrices(t) == 1,
    ensures
        t.len() == rows(t) * cols(t),
{
    if t.shape.len() == 2 {
        crate::semantics::memory::lemma_rank2(t.shape, 0, 0);
    } else {
        crate::semantics::memory::lemma_rank3(t.shape, 0, 0, 0);
        assert(1 * rows(t) * cols(t) == rows(t) * cols(t));
    }
}

/// The data-parallel half of Stream-K on its own carries out the product too:
/// its rectangle holds every tile.
pub proof fn data_parallel_half_carries_out_the_call(
    x: ExecutorView,
    call: MatmulCall,
    i: int,
    j: int,
    p: int,
)
    requires
        stream_k_dims(x, call, OpName::RunMatmulsStreamKDpOnly) is Ok,
        ({
            let dims = stream_k_dims(x, call, OpName::RunMatmulsStreamKDpOnly)->Ok_0;
            stream_k_commands(x, call, dims, dp_only_schedule(dims)) is Ok
        }),
        0 <= i < rows(call.c@),
        0 <= j < cols(call.c@),
        0 <= p < cols(call.a@),
    ensures
        ({
            let dims = stream_k_dims(x, call, OpName::RunMatmulsStreamKDpOnly)->Ok_0;
            let s = stream_k_commands(x, call, dims, dp_only_schedule(dims))->Ok_0;
            &&& streams_the_call(s, call, i, j, p)
            &&& s.tail_groups == 0 && !s.clear_c
            &&& s.dp_rows * 128 == rows(call.c@)
        }),
{
    lemma_single(call, i, j, p);
    let dims = resolve_call(call)->Ok_0;
    crate::matmul::resolution::resolved_is_addressable(
        call.a@.shape,
        call.b@.shape,
        call.c@.shape,
    );
    let (r, c) = (dims.m as int / 128, dims.n as int / 128);
    assert(dims.batch * (dims.m * dims.n) == dims.m * dims.n) by (nonlinear_arith)
        requires
            dims.batch == 1,
    ;
    assert(0 <= r * c <= 0x200_0000) by (nonlinear_arith)
        requires
            dims.m * dims.n <= 0x1_0000_0000,
            dims.m == 128 * r,
            dims.n == 128 * c,
            r >= 0,
            c >= 0,
    ;
    assert(c > 0 && r > 0);
    vstd::arithmetic::div_mod::lemma_div_multiples_vanish(r, c);
    assert(r * c == c * r) by (nonlinear_arith);
    assert(r * c > 0) by (nonlinear_arith)
        requires
            r > 0,
            c > 0,
    ;
    assert((r * c - r * c) * (dims.k / 32) == 0) by (nonlinear_arith);
}

/// A persistent dispatch carries out its call: its block walks the operands,
/// its tiles of 128 by 64 elements cover the output of every matrix of the
/// batch, and its pipeline is specialized to nothing that does not hold of the
/// call.
pub proof fn persistent_dispatch_carries_out_the_call(
    ctx: VulkanContext,
    sm_count: u32,
    counter: u64,
    call: MatmulCall,
    b: int,
    i: int,
    j: int,
    p: int,
)
    requires
        dispatch_of(ctx, sm_count, counter, call) is Ok,
        0 <= b < matrices(call.c@),
        0 <= i < rows(call.c@),
        0 <= j < cols(call.c@),
        0 <= p < cols(call.a@),
    ensures
        ({
            let d = dispatch_of(ctx, sm_count, counter, call)->Ok_0;
            let (a, w, c) = (call.a@, call.b@, call.c@);
            &&& a.buffer.context == ctx.id && w.buffer.context == ctx.id && c.buffer.context
                == ctx.id
            &&& c.buffer.handle != a.buffer.handle && c.buffer.handle != w.buffer.handle
            &&& d.push.m == rows(c) && d.push.n == cols(c) && d.push.k == cols(a)
            &&& walk(d.push.a_ptr, width(a.dtype), d.push.batch_stride_a, d.push.k, b, i, p)
                == element(a, cell(a, b, i, p))
            &&& walk(d.push.b_ptr, width(w.dtype), d.push.batch_stride_b, d.push.n, b, p, j)
                == element(w, cell(w, b, p, j))
            &&& walk(d.push.c_ptr, width(c.dtype), d.push.batch_stride_c, d.push.n, b, i, j)
                == element(c, cell(c, b, i, j))
            &&& d.push.alpha == call.alpha
            &&& d.push.flags == (if call.accumulate {
                1u32
            } else {
                0
            })
            &&& d.push.counter_ptr == counter
            &&& covers(d.push.grid_x as int, 64, cols(c))
            &&& covers(d.push.grid_y as int, 128, rows(c))
            &&& d.push.num_tiles == d.push.grid_x * d.push.grid_y * matrices(c)
            &&& 1 <= d.group_count_x <= d.push.num_tiles
            &&& d.group_count_x <= 2 * sm_count && d.group_count_x <= ctx.max_groups_x
            &&& d.group_count_x < d.push.num_tiles ==> d.group_count_x == ctx.max_groups_x
                || d.group_count_x == 2 * sm_count || 2 * sm_count > u32::MAX
            &&& d.variant % 2 == 1 <==> call.accumulate
            &&& d.variant as int / 2 % 2 == 1 <==> call.alpha.bits == 0x3F80_0000
            &&& d.variant as int / 4 % 2 == 1 <==> rows(c) % 128 == 0 && cols(c) % 64 == 0
            &&& d.variant as int / 8 % 2 == 1 <==> cols(a) % 64 == 0
            &&& d.variant < 16
            &&& d.total_flops == 2 * matrices(c) * rows(c) * cols(c) * cols(a)
        }),
{
    resolved_extents_walk_the_operands(call, b, i, j, p);
    crate::persistent::dispatch_is_bounded(ctx, sm_count, counter, call);
    lemma_covers(cols(call.c@), 64);
    lemma_covers(rows(call.c@), 128);
    let dims = resolve_call(call)->Ok_0;
    let (gx, gy) = (
        crate::arith::ceil_div(dims.n as int, 64),
        crate::arith::ceil_div(dims.m as int, 128),
    );
    assert(gx * gy * dims.batch >= 0) by (nonlinear_arith)
        requires
            gx >= 0,
            gy >= 0,
            dims.batch >= 0,
    ;
}

/// A split that a recorded graph holds carries out the call of its operation,
/// at the scratch that was set aside for it.
pub proof fn recorded_splits_carry_out_their_calls(
    x: ExecutorView,
    ops: Seq<MatmulOp>,
    resolved: Seq<ResolvedMatmul>,
    plans: Seq<OpPlan>,
    slots: Seq<SplitSlot>,
    scratch: u64,
    upto: int,
    at: int,
    b: int,
    i: int,
    j: int,
    p: int,
)
    requires
        0 <= at < upto <= ops.len(),
        graph_commands(x, ops, resolved, plans, slots, scratch, upto) is Ok,
        slots[at] is Some,
        resolve_call(ops[at].call) == Ok::<ResolvedMatmul, ErrorView>(resolved[at]),
        split_plan(x.ctx, resolved[at], (slots[at]->0).0.splits) == Ok::<SplitK2Dispatch, ErrorView>(
            (slots[at]->0).0,
        ),
        0 <= b < matrices(ops[at].call.c@),
        0 <= i < rows(ops[at].call.c@),
        0 <= j < cols(ops[at].call.c@),
        0 <= p < cols(ops[at].call.a@),
        scratch + (slots[at]->0).1 <= u64::MAX,
    ensures
        ({
            let commands = (graph_commands(x, ops, resolved, plans, slots, scratch, upto)->Ok_0).0;
            &&& commands.len() == upto
            &&& commands[at].step matches GraphStep::SplitK2(s) && splits_the_call(
                s,
                ops[at].call,
                (slots[at]->0).0.splits,
                (scratch + (slots[at]->0).1) as u64,
                b,
                i,
                j,
                p,
            )
        }),
    decreases upto,
{
    crate::executor::graph::graph_barriers_match_hazards(
        x,
        ops,
        resolved,
        plans,
        slots,
        scratch,
        upto - 1,
    );
    if at < upto - 1 {
        recorded_splits_carry_out_their_calls(
            x,
            ops,
            resolved,
            plans,
            slots,
            scratch,
            upto - 1,
            at,
            b,
            i,
            j,
            p,
        );
    } else {
        split_stages_carry_out_the_call(
            x.ctx,
            ops[at].call,
            (slots[at]->0).0.splits,
            (scratch + (slots[at]->0).1) as u64,
            b,
            i,
            j,
            p,
        );
    }
}

/// An explicit split call is split as often as it asks, or as often as its
/// shape suggests, and goes the regular way only where that is once. Its plan
/// is for its own shape.
pub proof fn split_requests_are_honoured(x: ExecutorView, call: MatmulCall, num_k_splits: u32)
    requires
        split_request(x, call, num_k_splits) is Ok,
    ensures
        !call.accumulate,
        num_k_splits <= 0xFFFF,
        match split_request(x, call, num_k_splits)->Ok_0 {
            SplitRequest::Regular => num_k_splits <= 1,
            SplitRequest::Split { dims, plan } => {
                &&& resolve_call(call) == Ok::<ResolvedMatmul, ErrorView>(dims)
                &&& split_plan(x.ctx, dims, plan.splits) == Ok::<SplitK2Dispatch, ErrorView>(plan)
                &&& num_k_splits != 0 ==> plan.splits == num_k_splits
                &&& plan.splits <= cols(call.a@)
                &&& x.ctx.buffer_device_address_enabled
            },
        },
{
    if resolve_call(call) is Ok {
        let dims = resolve_call(call)->Ok_0;
        crate::matmul::resolution::resolved_is_addressable(
            call.a@.shape,
            call.b@.shape,
            call.c@.shape,
        );
        crate::semantics::matmul::call_resolves_exactly(call);
        resolved_extents_walk_the_operands(call, 0, 0, 0, 0);
        let splits = crate::executor::reduction::requested_splits(dims, num_k_splits);
        lemma_default(dims);
        if split_plan(x.ctx, dims, splits as u32) is Ok {
            lemma_split_plan(x.ctx, dims, splits as u32);
        }
    }
}

proof fn lemma_default(dims: ResolvedMatmul)
    requires
        dims.batch > 0,
        dims.m > 0,
        dims.n > 0,
    ensures
        0 <= crate::executor::reduction::requested_splits(dims, 0) <= 64,
{
    let tile = crate::executor::splitk2::stage1_tile(dims.m, dims.n);
    let tiles = crate::executor::splitk::output_tiles(dims.batch, dims.m, dims.n, tile, tile);
    let (r, c) = (
        crate::arith::ceil_div(dims.m as int, tile as int),
        crate::arith::ceil_div(dims.n as int, tile as int),
    );
    crate::arith::lemma_ceil_div(dims.m as int, tile as int);
    crate::arith::lemma_ceil_div(dims.n as int, tile as int);
    assert(r * c * dims.batch > 0) by (nonlinear_arith)
        requires
            r > 0,
            c > 0,
            dims.batch > 0,
    ;
    crate::arith::lemma_ceil_div(64, tiles);
}

/// A chain carries out the products of its jobs: each is a row times a matrix
/// of half-precision weights, with its operands, scale and epilogue where the
/// shader looks for them. The table begins behind the counters, and every tile
/// of every job is some workgroup's.
pub proof fn chain_jobs_carry_out_their_operations(
    ctx: VulkanContext,
    ops: Seq<MatmulOp>,
    at: int,
    j: int,
    p: int,
)
    requires
        chain_refusal(ctx, ops) is None,
        0 <= at < ops.len(),
        0 <= j < cols(ops[at].call.c@),
        0 <= p < cols(ops[at].call.a@),
    ensures
        ({
            let job = chain_jobs(ops)[at];
            let op = ops[at];
            let (a, w, c) = (op.call.a@, op.call.b@, op.call.c@);
            let groups = chain_groups(chain_jobs(ops));
            &&& chain_jobs(ops).len() == ops.len()
            &&& a.dtype == DType::F32 && w.dtype == DType::F16 && c.dtype == DType::F32
            &&& matrices(c) == 1 && rows(c) == 1
            &&& !op.call.accumulate && op.epilogue.bias is None && op.store is Absent && !op.packed_b
            &&& job.n == cols(c) && job.k == cols(a)
            &&& job.alpha == op.call.alpha
            &&& walk(job.a_ptr, 4, 0, job.k, 0, 0, p) == element(a, cell(a, 0, 0, p))
            &&& walk(job.b_ptr, 2, 0, job.n, 0, p, j) == element(w, cell(w, 0, p, j))
            &&& walk(job.c_ptr, 4, 0, job.n, 0, 0, j) == element(c, cell(c, 0, 0, j))
            &&& job.flags % 2 == 1 <==> op.normed_a is Some
            &&& op.normed_a matches Some((weight, eps)) ==> job.bias_ptr == weight@.buffer.address
                && job.beta == eps
            &&& op.normed_a is None ==> job.bias_ptr == 0
            &&& match op.epilogue.binary {
                EpilogueBinary::Absent => job.flags as int / 0x100 % 4 == 0 && job.d_ptr == 0,
                EpilogueBinary::AddScaled { d, beta } => job.flags as int / 0x100 % 4 == 1
                    && job.d_ptr == d@.buffer.address && job.beta == beta && d@.shape == c.shape,
                EpilogueBinary::Mul { d } => job.flags as int / 0x100 % 4 == 2 && job.d_ptr
                    == d@.buffer.address && d@.shape == c.shape,
            }
            &&& match op.epilogue.activation {
                Activation::Absent => job.flags as int / 0x1_0000 % 4 == 0,
                Activation::Silu => job.flags as int / 0x1_0000 % 4 == 2,
                _ => false,
            }
            &&& job.vcols == 1 || job.vcols == 2
            &&& 1 <= groups <= 64
            &&& groups == 64 || cols(c) <= groups * (32 * job.vcols)
        }),
{
    crate::executor::elementwise::gemv_chain::lemma_no_job_refused(ctx, ops, ops.len() as int);
    lemma_jobs_resolve(ctx, ops);
    assert(job_refusal(ctx, ops[at], at as usize) is None);
    assert(resolve_op(ops[at]) is Ok);
    lemma_job(ctx, ops[at], at as usize, j, p);
    lemma_job_flags(ops[at]);
    let jobs = chain_jobs(ops);
    let job = job_of(ops[at]);
    assert(jobs[at] == job || jobs[at] == (GemvJob {
        flags: (job.flags + 0x100_0000) as u32,
        ..job
    }));
    lemma_groups(jobs, at);
}

/// The operands of a job.
proof fn lemma_job(ctx: VulkanContext, op: MatmulOp, index: usize, j: int, p: int)
    requires
        job_refusal(ctx, op, index) is None,
        resolve_op(op) is Ok,
        0 <= j < cols(op.call.c@),
        0 <= p < cols(op.call.a@),
    ensures
        ({
            let job = job_of(op);
            let (a, w, c) = (op.call.a@, op.call.b@, op.call.c@);
            &&& a.dtype == DType::F32 && w.dtype == DType::F16 && c.dtype == DType::F32
            &&& matrices(c) == 1 && rows(c) == 1
            &&& !op.call.accumulate && op.epilogue.bias is None && op.store is Absent && !op.packed_b
            &&& job.n == cols(c) && job.k == cols(a)
            &&& job.alpha == op.call.alpha
            &&& walk(job.a_ptr, 4, 0, job.k, 0, 0, p) == element(a, cell(a, 0, 0, p))
            &&& walk(job.b_ptr, 2, 0, job.n, 0, p, j) == element(w, cell(w, 0, p, j))
            &&& walk(job.c_ptr, 4, 0, job.n, 0, 0, j) == element(c, cell(c, 0, 0, j))
            &&& op.normed_a matches Some((weight, eps)) ==> job.bias_ptr == weight@.buffer.address
                && job.beta == eps
            &&& op.normed_a is None ==> job.bias_ptr == 0
            &&& match op.epilogue.binary {
                EpilogueBinary::Absent => job.d_ptr == 0,
                EpilogueBinary::AddScaled { d, beta } => job.d_ptr == d@.buffer.address && job.beta
                    == beta && d@.shape == c.shape && op.normed_a is None,
                EpilogueBinary::Mul { d } => job.d_ptr == d@.buffer.address && d@.shape == c.shape,
            }
            &&& op.epilogue.activation == Activation::Absent || op.epilogue.activation
                == Activation::Silu
            &&& job.vcols == 1 || job.vcols == 2
            &&& job.flags == job_flags(op)
        }),
{
    let call = op.call;
    let (a, w, c) = (call.a@, call.b@, call.c@);
    assert(resolve_call(call) is Ok);
    let d = resolve_call(call)->Ok_0;
    assert(d.batch == 1 && d.m == 1);
    lemma_single(call, 0, j, p);
    assert(0 * d.batch_stride_a == 0 && 0 * d.batch_stride_b == 0 && 0 * d.batch_stride_c == 0);
}

/// The flags of a job, with and without the end of a group.
proof fn lemma_job_flags(op: MatmulOp)
    requires
        op.epilogue.activation == Activation::Absent || op.epilogue.activation == Activation::Silu,
    ensures
        job_flags(op) < 0x100_0000,
        ({
            let plain = job_flags(op) as int;
            forall|flags: int| #![trigger flags / 0x100]
                flags == plain || flags == plain + 0x100_0000 ==> {
                    &&& flags % 2 == 1 <==> op.normed_a is Some
                    &&& flags / 0x100 % 4 == (match op.epilogue.binary {
                        EpilogueBinary::Absent => 0int,
                        EpilogueBinary::AddScaled { .. } => 1,
                        EpilogueBinary::Mul { .. } => 2,
                    })
                    &&& flags / 0x1_0000 % 4 == (if op.epilogue.activation == Activation::Silu {
                        2int
                    } else {
                        0
                    })
                }
        }),
{
}

proof fn lemma_groups(jobs: Seq<GemvJob>, at: int)
    requires
        0 <= at < jobs.len(),
        jobs[at].vcols == 1 || jobs[at].vcols == 2,
    ensures
        1 <= chain_groups(jobs) <= 64,
        chain_groups(jobs) == 64 || jobs[at].n <= chain_groups(jobs) * (32 * jobs[at].vcols),
{
    crate::executor::elementwise::gemv_chain::chain_grid_is_bounded(jobs);
    lemma_most(jobs, jobs.len() as int, at);
    crate::arith::lemma_ceil_div(jobs[at].n as int, 64);
    crate::arith::lemma_ceil_div(jobs[at].n as int, 32);
    let groups = chain_groups(jobs);
    let tiles = crate::executor::elementwise::gemv_chain::job_tiles(jobs[at]);
    if groups < 64 {
        let each = 32 * jobs[at].vcols;
        assert(tiles * each <= groups * each) by (nonlinear_arith)
            requires
                tiles <= groups,
                each > 0,
        ;
    }
}

proof fn lemma_most(jobs: Seq<GemvJob>, upto: int, at: int)
    requires
        0 <= at < upto <= jobs.len(),
    ensures
        crate::executor::elementwise::gemv_chain::job_tiles(jobs[at])
            <= crate::executor::elementwise::gemv_chain::most_tiles(jobs, upto),
    decreases upto,
{
    if at < upto - 1 {
        lemma_most(jobs, upto - 1, at);
    }
}

/// A chain is dispatched over a table that begins with the counters, which
/// the workgroups meet at, and goes on with the jobs.
pub proof fn chain_dispatch_points_behind_the_counters(n_jobs: u32, n_wg: u32, address: u64)
    requires
        address + 16 <= u64::MAX,
    ensures
        ({
            let d = chain_dispatch(n_jobs, n_wg, address);
            &&& d.groups_x == n_wg && d.groups_y == 1
            &&& d.push matches PushBlock::GemvChain(pc) && {
                &&& pc.jobs_ptr == address + 16 && pc.sync_ptr == address
                &&& pc.n_jobs == n_jobs && pc.n_wg == n_wg
            }
        }),
{
}

/// The splits that are set aside for a graph are planned for the shapes of
/// their own operations, as often as their routes say.
pub proof fn set_aside_splits_are_planned(
    ctx: VulkanContext,
    resolved: Seq<ResolvedMatmul>,
    plans: Seq<OpPlan>,
    upto: int,
    i: int,
)
    requires
        0 <= i < upto <= plans.len(),
        crate::executor::dispatch::split_slots(ctx, resolved, plans, upto).0[i] is Some,
    ensures
        ({
            let slot = crate::executor::dispatch::split_slots(ctx, resolved, plans, upto).0[i]->0;
            &&& plans[i].splitk2 == Some(slot.0.splits)
            &&& split_plan(ctx, resolved[i], slot.0.splits) == Ok::<SplitK2Dispatch, ErrorView>(
                slot.0,
            )
        }),
    decreases upto,
{
    crate::executor::dispatch::split_regions_are_disjoint(ctx, resolved, plans, upto - 1);
    if i < upto - 1 {
        set_aside_splits_are_planned(ctx, resolved, plans, upto - 1, i);
    }
}

/// The data-parallel part of a Stream-K schedule takes whole rows of tiles out
/// of whole waves, and all that fit: what is left for the tail is less than a
/// wave and a row. The tail has a workgroup for each place of a wave, or one
/// for each strip of K where there are fewer.
pub proof fn stream_k_leaves_little_to_the_tail(
    m: u32,
    n: u32,
    k: u32,
    bm: u32,
    bn: u32,
    bk: u32,
    sm_count: u32,
)
    requires
        0 < sm_count <= 0x7FFF_FFFF,
        schedule_result(m, n, k, bm, bn, bk, sm_count) is Ok,
    ensures
        ({
            let s = schedule_result(m, n, k, bm, bn, bk, sm_count)->Ok_0;
            let total = (m / bm) * (n / bn);
            let wave = 2 * sm_count;
            &&& total < wave ==> s.dp_tiles_total == 0
            &&& s.dp_tiles_total <= total - total % wave
            &&& total - s.dp_tiles_total < wave + n / bn
            &&& s.g_sk == (if s.total_iters_sk < wave {
                s.total_iters_sk as int
            } else {
                wave
            })
            &&& s.grid_total == s.dp_tiles_total + s.g_sk
            &&& s.iters_per_tile == k / bk
        }),
{
    crate::executor::streamk_schedule::schedule_covers_every_tile(m, n, k, bm, bn, bk, sm_count);
    let total = (m / bm) * (n / bn);
    let wave = 2 * sm_count;
    let row = (n / bn) as int;
    assert(total >= 0) by (nonlinear_arith)
        requires
            total == (m / bm) * (n / bn),
            m / bm >= 0,
            n / bn >= 0,
    ;
    assert(crate::executor::streamk_schedule::preferred_grid(sm_count) == wave);
    vstd::arithmetic::div_mod::lemma_fundamental_div_mod(total, wave);
    vstd::arithmetic::div_mod::lemma_mod_bound(total, wave);
    let whole = total / wave * wave;
    assert(wave * (total / wave) == whole) by (nonlinear_arith)
        requires
            whole == total / wave * wave,
    ;
    vstd::arithmetic::div_mod::lemma_fundamental_div_mod(whole, row);
    vstd::arithmetic::div_mod::lemma_mod_bound(whole, row);
    assert(row * (whole / row) == whole / row * row) by (nonlinear_arith);
}

/// An automatic split fits exactly where it can be planned and its scratch
/// stays within 256 MiB.
pub proof fn automatic_splits_fit_exactly(ctx: VulkanContext, dims: ResolvedMatmul, splits: u32)
    requires
        dims.batch > 0,
        dims.m > 0,
        dims.n > 0,
    ensures
        crate::executor::splitk2::auto_fits(
            ctx.max_groups_x,
            ctx.max_groups_y,
            ctx.max_groups_z,
            dims.batch,
            dims.m,
            dims.n,
            dims.k,
            splits,
        ) <==> split_plan(ctx, dims, splits) is Ok && 4 * (dims.batch * (dims.m * dims.n) * splits)
            <= 256 * 1024 * 1024,
{
    let total = dims.batch * (dims.m * dims.n);
    crate::semantics::acceptance::splits_are_planned_exactly(ctx, dims, splits);
    assert(dims.batch * dims.m * dims.n == total) by (nonlinear_arith)
        requires
            total == dims.batch * (dims.m * dims.n),
    ;
    assert(total >= 0) by (nonlinear_arith)
        requires
            total == dims.batch * (dims.m * dims.n),
            dims.m >= 0,
            dims.n >= 0,
            dims.batch >= 0,
    ;
    if splits >= 2 {
        assert(total * 2 <= total * splits) by (nonlinear_arith)
            requires
                total >= 0,
                splits >= 2,
        ;
    }
    let tile = crate::executor::splitk2::stage1_tile(dims.m, dims.n) as int;
    crate::semantics::memory::lemma_groups_enough(dims.n as int, tile, ctx.max_groups_x as int);
    crate::semantics::memory::lemma_groups_enough(dims.m as int, tile, ctx.max_groups_y as int);
    crate::semantics::memory::lemma_groups_enough(total, 1024, ctx.max_groups_x as int);
}

/// The split counts that a shape is probed with leave at least 128 elements of
/// K to each split and fit the device; only f32 shapes with a deep K and few
/// tiles are probed.
pub proof fn probed_splits_are_worth_it(ctx: VulkanContext, dims: ResolvedMatmul, splits: u32)
    ensures
        crate::executor::tuning::probed_counts(ctx, dims, 5).contains(splits) <==> {
            &&& splits == 4 || splits == 8 || splits == 16 || splits == 32 || splits == 64
            &&& !dims.b_f16 && dims.k >= 1024 && 128 * splits <= dims.k
            &&& crate::executor::tuning::tiles_of(dims) <= 48
            &&& crate::executor::splitk2::auto_fits(
                ctx.max_groups_x,
                ctx.max_groups_y,
                ctx.max_groups_z,
                dims.batch,
                dims.m,
                dims.n,
                dims.k,
                splits,
            )
        },
{
    lemma_probed(ctx, dims, 5, splits);
    if splits > 0 {
        let (k, d) = (dims.k as int, splits as int);
        vstd::arithmetic::div_mod::lemma_fundamental_div_mod(k, d);
        vstd::arithmetic::div_mod::lemma_mod_bound(k, d);
        let q = k / d;
        assert(q >= 128 <==> 128 * d <= k) by (nonlinear_arith)
            requires
                k == d * q + k % d,
                0 <= k % d < d,
        ;
    }
}

proof fn lemma_probed(ctx: VulkanContext, dims: ResolvedMatmul, upto: int, splits: u32)
    requires
        0 <= upto <= 5,
    ensures
        crate::executor::tuning::probed_counts(ctx, dims, upto).contains(splits) <==> {
            &&& upto >= 1 && splits == 4 || upto >= 2 && splits == 8 || upto >= 3 && splits == 16
                || upto >= 4 && splits == 32 || upto >= 5 && splits == 64
            &&& crate::executor::tuning::probes_count(ctx, dims, splits)
        },
    decreases upto,
{
    if upto > 0 {
        lemma_probed(ctx, dims, upto - 1, splits);
        let front = crate::executor::tuning::probed_counts(ctx, dims, upto - 1);
        let now = crate::executor::tuning::probed_counts(ctx, dims, upto);
        let added = crate::executor::tuning::split_counts()[upto - 1];
        assert(added == (if upto == 1 {
            4u32
        } else if upto == 2 {
            8
        } else if upto == 3 {
            16
        } else if upto == 4 {
            32
        } else {
            64
        }));
        let longer = front.push(added);
        assert(longer.contains(splits) <==> front.contains(splits) || added == splits) by {
            if front.contains(splits) {
                let i = choose|i: int| 0 <= i < front.len() && front[i] == splits;
                assert(longer[i] == splits);
            }
            assert(longer[front.len() as int] == added);
            if longer.contains(splits) {
                let i = choose|i: int| 0 <= i < longer.len() && longer[i] == splits;
                if i < front.len() {
                    assert(front[i] == splits);
                }
            }
        }
    }
}

/// What is said of the route of a shape is what a plain f32-activation
/// operation of that shape takes on its own.
pub proof fn described_route_is_the_one_taken(x: ExecutorView, op: MatmulOp, dims: ResolvedMatmul)
    requires
        crate::executor::dispatch::plain_form(op),
        !dims.packed_b,
        !dims.a_f16,
    ensures
        crate::executor::dispatch::batch_op_plan(x, seq![op], dims, 0, false) == Ok::<
            OpPlan,
            ErrorView,
        >(
            crate::executor::plan::shape_plan(
                x.pipeline,
                dims.batch,
                dims.m,
                dims.n,
                dims.k,
                dims.b_f16,
                true,
            ),
        ),
{
}

} // verus!
