//! What requests are taken, and what becomes of them as a whole.

use crate::context::{DeviceKind, VulkanContext};
use crate::device::{fitness, is_choice, DeviceSummary, PreferenceView};
use crate::dtype::DType;
use crate::error::ErrorView;
use crate::executor::dispatch::{batch_op_plan, batch_result, lemma_resolved_nonempty, unsplit};
use crate::executor::graph::GraphStep;
use crate::executor::plan::{slot_kernel, ExecutorView};
use crate::executor::prepared::{
    commands_agree, first_bound, prepare_result, prepared_plans, PreparedCommands,
};
use crate::executor::recording::dispatch_result;
use crate::executor::tuning::fitting_slots;
use crate::executor::validation::{call_context_result, op_context_result};
use crate::matmul::api::{Activation, Epilogue, EpilogueBinary, MatmulCall, MatmulOp, MatmulStore};
use crate::matmul::resolution::{flops_sum, resolve_op, resolve_ops, ResolvedMatmul};
use crate::pipeline::catalog::KERNEL_COUNT;
use crate::pipeline::create::kernel_constants;
use crate::semantics::graph::{
    batches_record_every_operation, dependent_matmuls_wait, graphs_record_every_operation, loads,
    ordered, stores,
};
use crate::semantics::matmul::{cols, matrices, rows};
use crate::semantics::memory::lemma_groups_enough;
use vstd::prelude::*;

verus! {

/// The operands of a call are taken exactly where they live on the device and
/// C is a buffer of its own.
pub proof fn calls_are_taken_on_their_device(ctx: VulkanContext, call: MatmulCall)
    ensures
        call_context_result(ctx, call) is Ok <==> {
            let (a, b, c) = (call.a@.buffer, call.b@.buffer, call.c@.buffer);
            &&& a.context == ctx.id && b.context == ctx.id && c.context == ctx.id
            &&& a.handle != c.handle && b.handle != c.handle
        },
{
}

/// The operands of an operation are taken exactly where those of its call are
/// and the bias and the second operand live on the device too.
pub proof fn operations_are_taken_on_their_device(ctx: VulkanContext, op: MatmulOp)
    ensures
        op_context_result(ctx, op) is Ok <==> {
            &&& call_context_result(ctx, op.call) is Ok
            &&& op.epilogue.bias matches Some(bias) ==> bias@.buffer.context == ctx.id
            &&& match op.epilogue.binary {
                EpilogueBinary::Absent => true,
                EpilogueBinary::AddScaled { d, .. } => d@.buffer.context == ctx.id,
                EpilogueBinary::Mul { d } => d@.buffer.context == ctx.id,
            }
        },
{
}

/// The floating-point operations of the first `upto` operations: a multiply
/// and an add for every term of every element of the output.
pub open spec fn work_of(ops: Seq<MatmulOp>, upto: int) -> int
    decreases upto,
{
    if upto <= 0 {
        0
    } else {
        let call = ops[upto - 1].call;
        work_of(ops, upto - 1) + 2 * matrices(call.c@) * rows(call.c@) * cols(call.c@) * cols(
            call.a@,
        )
    }
}

/// A batch that is taken is resolved operation by operation, and its work is
/// that of all of them.
pub proof fn batches_are_resolved_one_by_one(ctx: VulkanContext, ops: Seq<MatmulOp>)
    requires
        batch_result(ctx, ops) is Ok,
    ensures
        ({
            let (resolved, flops) = batch_result(ctx, ops)->Ok_0;
            &&& resolved.len() == ops.len()
            &&& forall|i: int|
                0 <= i < ops.len() ==> resolve_op(ops[i]) == Ok::<ResolvedMatmul, ErrorView>(
                    #[trigger] resolved[i],
                )
            &&& flops == work_of(ops, ops.len() as int)
        }),
{
    let resolved = (batch_result(ctx, ops)->Ok_0).0;
    lemma_resolved(ops);
    assert(ops.take(ops.len() as int) =~= ops);
    lemma_work(ops, ops.len() as int);
}

proof fn lemma_resolved(ops: Seq<MatmulOp>)
    requires
        resolve_ops(ops) is Ok,
    ensures
        resolve_ops(ops)->Ok_0.len() == ops.len(),
        forall|i: int|
            0 <= i < ops.len() ==> resolve_op(ops[i]) == Ok::<ResolvedMatmul, ErrorView>(
                #[trigger] resolve_ops(ops)->Ok_0[i],
            ),
{
    if ops.len() > 0 {
        lemma_resolved_nonempty(ops, 0);
    }
    assert forall|i: int| 0 <= i < ops.len() implies resolve_op(ops[i]) == Ok::<
        ResolvedMatmul,
        ErrorView,
    >(#[trigger] resolve_ops(ops)->Ok_0[i]) by {
        lemma_resolved_nonempty(ops, i);
    }
}

proof fn lemma_work(ops: Seq<MatmulOp>, upto: int)
    requires
        0 <= upto <= ops.len(),
        resolve_ops(ops.take(upto)) is Ok,
    ensures
        flops_sum(resolve_ops(ops.take(upto))->Ok_0) == work_of(ops, upto),
        work_of(ops, upto) >= 0,
    decreases upto,
{
    let now = ops.take(upto);
    if upto > 0 {
        assert(now.drop_last() =~= ops.take(upto - 1));
        assert(now.last() == ops[upto - 1]);
        lemma_work(ops, upto - 1);
        let front = resolve_ops(ops.take(upto - 1))->Ok_0;
        let all = resolve_ops(now)->Ok_0;
        let dims = resolve_op(ops[upto - 1])->Ok_0;
        assert(all == front.push(dims));
        assert(all.drop_last() =~= front);
        let call = ops[upto - 1].call;
        crate::semantics::matmul::call_resolves_exactly(call);
        crate::semantics::matmul::resolved_extents_walk_the_operands(call, 0, 0, 0, 0);
    }
}

/// What the shader of a recorded matmul is specialized to: whether it
/// accumulates and scales; and where its kernel can fuse anything, whether a
/// bias is added, which activation and which second operation follow, and
/// where its kernel can store otherwise, how.
pub proof fn pipelines_are_specialized_to_the_operation(
    ctx: VulkanContext,
    op: MatmulOp,
    dims: ResolvedMatmul,
    slot: usize,
)
    requires
        slot < KERNEL_COUNT,
        dispatch_result(ctx, op, dims, slot) is Ok,
    ensures
        ({
            let id = dispatch_result(ctx, op, dims, slot)->Ok_0.pipeline;
            let constants = kernel_constants(slot_kernel(id.kernel), id.variant, id.epilogue);
            &&& constants.len() == 4 || constants.len() == 7 || constants.len() == 9
            &&& constants[0] == (if op.call.accumulate {
                1u32
            } else {
                0
            })
            &&& constants[1] == (if op.call.alpha.bits == 0x3F80_0000 {
                1u32
            } else {
                0
            })
            &&& constants.len() == 4 ==> op.epilogue == Epilogue::plain()
            &&& constants.len() >= 7 ==> {
                &&& constants[4] == (if op.epilogue.bias is Some {
                    1u32
                } else {
                    0
                })
                &&& constants[5] == (match op.epilogue.activation {
                    Activation::Absent => 0u32,
                    Activation::Relu => 1,
                    Activation::Silu => 2,
                    Activation::Gelu => 3,
                })
                &&& constants[6] == (match op.epilogue.binary {
                    EpilogueBinary::Absent => 0u32,
                    EpilogueBinary::AddScaled { .. } => 1,
                    EpilogueBinary::Mul { .. } => 2,
                })
            }
            &&& constants.len() == 9 ==> {
                &&& constants[7] == (match op.store {
                    MatmulStore::Absent => 0u32,
                    MatmulStore::Rope { .. } => 1,
                    MatmulStore::Scatter { .. } => 2,
                    MatmulStore::RopeScatter { .. } => 3,
                })
                &&& constants[8] == (match op.store {
                    MatmulStore::Scatter { dst, .. } => if dst@.dtype == DType::F16 {
                        1u32
                    } else {
                        0
                    },
                    MatmulStore::RopeScatter { dst, .. } => if dst@.dtype == DType::F16 {
                        1u32
                    } else {
                        0
                    },
                    _ => 0,
                })
            }
        }),
{
}

/// Only an operation with nothing fused into it, with f32 operands as they
/// are, and that overwrites its output is ever split.
pub proof fn only_plain_operations_are_split(
    x: ExecutorView,
    ops: Seq<MatmulOp>,
    i: int,
    with_barriers: bool,
)
    requires
        0 <= i < ops.len(),
        resolve_op(ops[i]) is Ok,
        batch_op_plan(x, ops, resolve_op(ops[i])->Ok_0, i, with_barriers) is Ok,
        batch_op_plan(x, ops, resolve_op(ops[i])->Ok_0, i, with_barriers)->Ok_0.splitk2 is Some,
    ensures
        ({
            let op = ops[i];
            &&& !op.call.accumulate
            &&& op.epilogue.bias is None && op.epilogue.activation == Activation::Absent
                && op.epilogue.binary is Absent
            &&& op.normed_a is None && op.store is Absent && !op.packed_b
            &&& op.call.a@.dtype == DType::F32 && op.call.b@.dtype == DType::F32
            &&& with_barriers || ops.len() == 1
        }),
{
}

/// A prepared batch replays what a submission of its operations does: every
/// operation is dispatched as it is on its own, by a kernel that binds no
/// descriptors, and where the operations form a chain those that depend on
/// each other have a barrier between them.
pub proof fn prepared_batches_replay_their_operations(
    x: ExecutorView,
    ops: Seq<MatmulOp>,
    with_barriers: bool,
    commands: PreparedCommands,
    i: int,
)
    requires
        prepare_result(x, ops) is Ok,
        commands_agree(x, ops, (prepare_result(x, ops)->Ok_0).0, with_barriers, commands),
        0 <= i < ops.len(),
    ensures
        x.ctx.buffer_device_address_enabled,
        resolve_op(ops[i]) == Ok::<ResolvedMatmul, ErrorView>((prepare_result(x, ops)->Ok_0).0[i]),
        ({
            let resolved = (prepare_result(x, ops)->Ok_0).0;
            let kernel = prepared_plans(x, resolved)[i].kernel;
            &&& !slot_kernel(kernel).uses_descriptors
            &&& match commands {
                PreparedCommands::Batch(list) => !with_barriers && list@.len() == ops.len()
                    && dispatch_result(x.ctx, ops[i], resolved[i], kernel) == Ok::<_, ErrorView>(
                    list@[i].dispatch,
                ),
                PreparedCommands::Graph(list) => with_barriers && list@.len() == ops.len()
                    && (list@[i].step matches GraphStep::Matmul(c) && dispatch_result(
                    x.ctx,
                    ops[i],
                    resolved[i],
                    kernel,
                ) == Ok::<_, ErrorView>(c.dispatch)),
                PreparedCommands::Mixed(_) => false,
            }
        }),
{
    let resolved = (prepare_result(x, ops)->Ok_0).0;
    let plans = prepared_plans(x, resolved);
    let n = ops.len() as int;
    lemma_resolved(ops);
    lemma_none_bound(plans, 0, i);
    match commands {
        PreparedCommands::Batch(list) => {
            batches_record_every_operation(x, ops, resolved, plans, n);
            assert(list@[i].dispatch == list@[i].dispatch);
        },
        PreparedCommands::Graph(list) => {
            graphs_record_every_operation(x, ops, resolved, plans, unsplit(ops.len()), 0, n);
            crate::executor::graph::graph_barriers_match_hazards(
                x,
                ops,
                resolved,
                plans,
                unsplit(ops.len()),
                0,
                n,
            );
            assert(list@[i].step is SplitK2 <==> unsplit(ops.len())[i] is Some);
        },
        PreparedCommands::Mixed(_) => {},
    }
}

proof fn lemma_none_bound(plans: Seq<crate::executor::plan::OpPlan>, from: int, i: int)
    requires
        0 <= from <= i < plans.len(),
        first_bound(plans, from) is None,
    ensures
        !slot_kernel(plans[i].kernel).uses_descriptors,
    decreases i - from,
{
    if from < i {
        lemma_none_bound(plans, from + 1, i);
    }
}

/// The operations of a prepared chain that depend on each other have a barrier
/// between them.
pub proof fn prepared_chains_keep_their_order(
    x: ExecutorView,
    ops: Seq<MatmulOp>,
    commands: PreparedCommands,
    i: int,
    j: int,
    buffer: u64,
)
    requires
        prepare_result(x, ops) is Ok,
        commands_agree(x, ops, (prepare_result(x, ops)->Ok_0).0, true, commands),
        0 <= i < j < ops.len(),
        ordered(
            loads(ops[i], buffer),
            stores(ops[i], buffer),
            loads(ops[j], buffer),
            stores(ops[j], buffer),
        ),
    ensures
        commands matches PreparedCommands::Graph(list) && exists|p: int|
            i < p <= j && (#[trigger] list@[p]).barrier,
{
    let resolved = (prepare_result(x, ops)->Ok_0).0;
    let plans = prepared_plans(x, resolved);
    let none = unsplit(ops.len());
    let n = ops.len() as int;
    let list = commands->Graph_0@;
    dependent_matmuls_wait(x, ops, resolved, plans, none, 0, i, j, buffer);
    crate::executor::graph::graph_barriers_match_hazards(x, ops, resolved, plans, none, 0, n);
    assert(forall|p: int| 0 <= p < n ==> !((#[trigger] list[p]).step is SplitK2));
    if !list[j].barrier {
        let p = choose|p: int|
            i < p < j && crate::semantics::graph::keeps_apart(#[trigger] list[p]);
        assert(list[p].barrier);
    }
}

/// The device that is picked is one that was asked for: of the kind, at the
/// position, or with the name. Without a preference a discrete GPU comes
/// before an integrated one, that before a virtual one, a processor last, and
/// of equals the first.
pub proof fn picked_device_was_asked_for(
    preference: PreferenceView,
    devices: Seq<DeviceSummary>,
    i: int,
    j: int,
)
    requires
        is_choice(preference, devices, devices.len() as int, i),
        0 <= j < devices.len(),
    ensures
        0 <= i < devices.len(),
        match preference {
            PreferenceView::Kind(kind) => {
                &&& devices[i].kind == kind
                &&& devices[j].kind == kind ==> i <= j
            },
            PreferenceView::Index(index) => i == index,
            PreferenceView::Name(text) => {
                &&& crate::text::contains(crate::text::ascii_lower(devices[i].name@), text)
                &&& crate::text::contains(crate::text::ascii_lower(devices[j].name@), text) ==> i
                    <= j
            },
            PreferenceView::Auto => {
                let (picked, other) = (devices[i].kind, devices[j].kind);
                &&& picked == other ==> i <= j
                &&& other == DeviceKind::DiscreteGpu ==> picked == DeviceKind::DiscreteGpu
                &&& other == DeviceKind::IntegratedGpu ==> picked == DeviceKind::DiscreteGpu
                    || picked == DeviceKind::IntegratedGpu
                &&& other == DeviceKind::VirtualGpu ==> picked != DeviceKind::Other && picked
                    != DeviceKind::Cpu
                &&& other == DeviceKind::Other ==> picked != DeviceKind::Cpu
            },
        },
{
    assert(fitness(preference, devices, i) is Some);
    let _ = fitness(preference, devices, j);
}

/// A shape is measured with every tunable kernel whose grid the device takes,
/// and with no other.
pub proof fn candidates_fit_the_device(
    x: ExecutorView,
    dims: ResolvedMatmul,
    slots: Seq<usize>,
    upto: int,
    slot: usize,
)
    requires
        0 <= upto <= slots.len(),
        slot < KERNEL_COUNT,
    ensures
        fitting_slots(x, dims, slots, upto).contains(slot) <==> slots.take(upto).contains(slot) && {
            let kernel = slot_kernel(slot);
            &&& dims.n <= x.ctx.max_groups_x * kernel.tile_n
            &&& dims.m <= x.ctx.max_groups_y * kernel.tile_m
            &&& dims.batch <= x.ctx.max_groups_z
        },
    decreases upto,
{
    let kernel = slot_kernel(slot);
    lemma_groups_enough(dims.n as int, kernel.tile_n as int, x.ctx.max_groups_x as int);
    lemma_groups_enough(dims.m as int, kernel.tile_m as int, x.ctx.max_groups_y as int);
    if upto > 0 {
        candidates_fit_the_device(x, dims, slots, upto - 1, slot);
        let front = slots.take(upto - 1);
        let all = slots.take(upto);
        assert(all =~= front.push(slots[upto - 1]));
        lemma_pushed(front, slots[upto - 1], slot);
        lemma_pushed(fitting_slots(x, dims, slots, upto - 1), slots[upto - 1], slot);
    }
}

proof fn lemma_pushed(s: Seq<usize>, added: usize, x: usize)
    ensures
        s.push(added).contains(x) <==> s.contains(x) || added == x,
{
    let all = s.push(added);
    if s.contains(x) {
        let i = choose|i: int| 0 <= i < s.len() && s[i] == x;
        assert(all[i] == x);
    }
    if added == x {
        assert(all[s.len() as int] == x);
    }
    if all.contains(x) {
        let i = choose|i: int| 0 <= i < all.len() && all[i] == x;
        if i < s.len() {
            assert(s[i] == x);
        }
    }
}

} // verus!
