//! What the operations of a graph touch, and how those that depend on each
//! other are kept apart.

use crate::error::{ErrorView, OpName};
use crate::executor::elementwise::attn::{attn_operands, attn_plan};
use crate::executor::elementwise::common::ElementwiseDispatch;
use crate::executor::elementwise::flash::{flash_plan, pack_plan};
use crate::executor::elementwise::gemv_chain::{chain_groups, chain_jobs, chain_refusal};
use crate::executor::elementwise::ops::{
    argmax_plan, binary_plan, copy_plan, gather_plan, norm_plan, rope_plan, rope_scatter_plan,
    softmax_plan,
};
use crate::executor::graph::{
    batch_commands, graph_access, graph_accesses, graph_barriers_match_hazards, graph_commands,
    GraphCommand, GraphStep, SplitSlot,
};
use crate::executor::graph_ops::{
    accesses_of, chain_access, exec_commands, graph_steps, op_steps, recorded_barriers_match_count,
    ExecCommand, ExecOp, ExecStep, PlannedView, StepView,
};
use crate::executor::hazard::{
    barrier_at, conflicting_dispatches_are_separated, every_barrier_is_needed, no_access, op_access,
    separates, AccessView,
};
use crate::executor::plan::{ExecutorView, OpPlan};
use crate::executor::recording::dispatch_result;
use crate::matmul::api::{EpilogueBinary, MatmulOp, MatmulStore};
use crate::matmul::resolution::{resolve_op, ResolvedMatmul};
use crate::tensor::Tensor;
use vstd::prelude::*;

verus! {

/// Whether a tensor lies in a buffer.
pub open spec fn lies_in(t: &Tensor, buffer: u64) -> bool {
    t@.buffer.handle == buffer
}

/// Whether a matmul with what is fused into it loads from a buffer.
pub open spec fn loads(op: MatmulOp, buffer: u64) -> bool {
    ||| lies_in(op.call.a, buffer)
    ||| lies_in(op.call.b, buffer)
    ||| op.call.accumulate && lies_in(op.call.c, buffer)
    ||| op.epilogue.bias matches Some(bias) && lies_in(bias, buffer)
    ||| match op.epilogue.binary {
        EpilogueBinary::Absent => false,
        EpilogueBinary::AddScaled { d, .. } => lies_in(d, buffer),
        EpilogueBinary::Mul { d } => lies_in(d, buffer),
    }
    ||| op.normed_a matches Some((weight, _)) && lies_in(weight, buffer)
    ||| match op.store {
        MatmulStore::Rope { table, .. } => lies_in(table, buffer),
        MatmulStore::RopeScatter { table, .. } => lies_in(table, buffer),
        _ => false,
    }
}

/// Whether a matmul with what is fused into it stores to a buffer: that of
/// its destination where it scatters, else that of C.
pub open spec fn stores(op: MatmulOp, buffer: u64) -> bool {
    match op.store {
        MatmulStore::Scatter { dst, .. } => lies_in(dst, buffer),
        MatmulStore::RopeScatter { dst, .. } => lies_in(dst, buffer),
        _ => lies_in(op.call.c, buffer),
    }
}

/// Whether two pieces of work of which the first touches a buffer so and the
/// second so have to keep their order: one of them stores.
pub open spec fn ordered(first_loads: bool, first_stores: bool, loads: bool, stores: bool) -> bool {
    first_stores && (loads || stores) || first_loads && stores
}

proof fn lemma_reads(access: AccessView, added: u64, buffer: u64)
    ensures
        access.and_reads(added).reads.contains(buffer) <==> access.reads.contains(buffer) || added
            == buffer,
        access.and_reads(added).writes.contains(buffer) <==> access.writes.contains(buffer),
        access.and_reads(added).flushes == access.flushes,
{
    lemma_push(access.reads, added, buffer);
}

proof fn lemma_writes(access: AccessView, added: u64, buffer: u64)
    ensures
        access.and_writes(added).writes.contains(buffer) <==> access.writes.contains(buffer)
            || added == buffer,
        access.and_writes(added).reads.contains(buffer) <==> access.reads.contains(buffer),
        access.and_writes(added).flushes == access.flushes,
{
    lemma_push(access.writes, added, buffer);
}

proof fn lemma_push(s: Seq<u64>, added: u64, buffer: u64)
    ensures
        s.push(added).contains(buffer) <==> s.contains(buffer) || added == buffer,
{
    let all = s.push(added);
    if s.contains(buffer) {
        let i = choose|i: int| 0 <= i < s.len() && s[i] == buffer;
        assert(all[i] == buffer);
    }
    if added == buffer {
        assert(all[s.len() as int] == buffer);
    }
    if all.contains(buffer) {
        let i = choose|i: int| 0 <= i < all.len() && all[i] == buffer;
        if i < s.len() {
            assert(s[i] == buffer);
        }
    }
}

/// A chain of accesses reads and writes what was added to it.
proof fn lemma_links()
    ensures
        forall|a: AccessView, x: u64, b: u64|
            #![trigger a.and_reads(x).reads.contains(b)]
            a.and_reads(x).reads.contains(b) <==> a.reads.contains(b) || x == b,
        forall|a: AccessView, x: u64, b: u64|
            #![trigger a.and_reads(x).writes.contains(b)]
            a.and_reads(x).writes.contains(b) <==> a.writes.contains(b),
        forall|a: AccessView, x: u64, b: u64|
            #![trigger a.and_writes(x).writes.contains(b)]
            a.and_writes(x).writes.contains(b) <==> a.writes.contains(b) || x == b,
        forall|a: AccessView, x: u64, b: u64|
            #![trigger a.and_writes(x).reads.contains(b)]
            a.and_writes(x).reads.contains(b) <==> a.reads.contains(b),
        forall|b: u64| !(#[trigger] no_access().reads.contains(b)),
        forall|b: u64| !(#[trigger] no_access().writes.contains(b)),
{
    assert forall|a: AccessView, x: u64, b: u64|
        #![trigger a.and_reads(x).reads.contains(b)]
        a.and_reads(x).reads.contains(b) <==> a.reads.contains(b) || x == b by {
        lemma_reads(a, x, b);
    }
    assert forall|a: AccessView, x: u64, b: u64|
        #![trigger a.and_writes(x).writes.contains(b)]
        a.and_writes(x).writes.contains(b) <==> a.writes.contains(b) || x == b by {
        lemma_writes(a, x, b);
    }
}

/// What is recorded of a matmul for the sake of barriers is what it loads and
/// stores.
pub proof fn matmul_access_is_what_it_touches(op: MatmulOp, buffer: u64)
    ensures
        op_access(op).reads.contains(buffer) <==> loads(op, buffer),
        op_access(op).writes.contains(buffer) <==> stores(op, buffer),
        !op_access(op).flushes,
{
    let out = match op.store.dst_of() {
        Some(dst) => dst@.buffer.handle,
        None => op.call.c@.buffer.handle,
    };
    let a0 = no_access();
    let a1 = a0.and_reads(op.call.a@.buffer.handle);
    let a2 = a1.and_reads(op.call.b@.buffer.handle);
    let a3 = a2.and_writes(out);
    let a4 = match op.store.table_of() {
        Some(table) => a3.and_reads(table@.buffer.handle),
        None => a3,
    };
    let a5 = if op.call.accumulate {
        a4.and_reads(op.call.c@.buffer.handle)
    } else {
        a4
    };
    let a6 = match op.epilogue.bias {
        Some(bias) => a5.and_reads(bias@.buffer.handle),
        None => a5,
    };
    let a7 = match op.epilogue.d_of() {
        Some(d) => a6.and_reads(d@.buffer.handle),
        None => a6,
    };
    lemma_links();
    assert(a1.reads.contains(buffer) <==> lies_in(op.call.a, buffer));
    assert(a3.reads.contains(buffer) <==> lies_in(op.call.a, buffer) || lies_in(
        op.call.b,
        buffer,
    ));
    assert(a3.writes.contains(buffer) <==> out == buffer);
    assert(a5.writes.contains(buffer) <==> out == buffer);
    assert(a7.writes.contains(buffer) <==> out == buffer);
}

/// Whether an operation of a mixed graph loads from a buffer.
pub open spec fn op_loads(op: ExecOp, buffer: u64) -> bool {
    match op {
        ExecOp::Matmul(op) => loads(op, buffer),
        ExecOp::RmsNorm { input, weight, .. } => lies_in(input, buffer) || lies_in(weight, buffer),
        ExecOp::LayerNorm { input, weight, bias, .. } => lies_in(input, buffer) || lies_in(
            weight,
            buffer,
        ) || lies_in(bias, buffer),
        ExecOp::SoftmaxRows { input, .. } => lies_in(input, buffer),
        ExecOp::Rope { input, table, .. } => lies_in(input, buffer) || lies_in(table, buffer),
        ExecOp::RopeScatter { input, table, .. } => lies_in(input, buffer) || lies_in(table, buffer),
        ExecOp::CopyStrided { src, .. } => lies_in(src, buffer),
        ExecOp::Binary { a, b, .. } => lies_in(a, buffer) || lies_in(b, buffer),
        ExecOp::AttnDecode { q, kt, v, scratch, .. } => lies_in(q, buffer) || lies_in(kt, buffer)
            || lies_in(v, buffer) || lies_in(scratch, buffer),
        ExecOp::FlashAttn { q, kt, v, .. } => lies_in(q, buffer) || lies_in(kt, buffer) || lies_in(
            v,
            buffer,
        ),
        ExecOp::PrefillQkvPack { qkv, table, .. } => lies_in(qkv, buffer) || lies_in(table, buffer),
        ExecOp::Argmax { input, .. } => lies_in(input, buffer),
        ExecOp::EmbedGather { token, table, .. } => token.backing().handle == buffer || lies_in(
            table,
            buffer,
        ),
        ExecOp::EmbedGatherRows { tokens, table, .. } => tokens.backing().handle == buffer
            || lies_in(table, buffer),
        ExecOp::GemvChain { jobs } => exists|i: int|
            0 <= i < jobs@.len() && loads(#[trigger] jobs@[i], buffer),
    }
}

/// Whether an operation of a mixed graph stores to a buffer.
pub open spec fn op_stores(op: ExecOp, buffer: u64) -> bool {
    match op {
        ExecOp::Matmul(op) => stores(op, buffer),
        ExecOp::RmsNorm { output, .. } => lies_in(output, buffer),
        ExecOp::LayerNorm { output, .. } => lies_in(output, buffer),
        ExecOp::SoftmaxRows { output, .. } => lies_in(output, buffer),
        ExecOp::Rope { output, .. } => lies_in(output, buffer),
        ExecOp::RopeScatter { dst, .. } => lies_in(dst, buffer),
        ExecOp::CopyStrided { dst, .. } => lies_in(dst, buffer),
        ExecOp::Binary { out, .. } => lies_in(out, buffer),
        ExecOp::AttnDecode { scratch, out, .. } => lies_in(scratch, buffer) || lies_in(out, buffer),
        ExecOp::FlashAttn { out, .. } => lies_in(out, buffer),
        ExecOp::PrefillQkvPack { q, kt, v, .. } => lies_in(q, buffer) || lies_in(kt, buffer)
            || lies_in(v, buffer),
        ExecOp::Argmax { result, .. } => result.backing().handle == buffer,
        ExecOp::EmbedGather { out, .. } => lies_in(out, buffer),
        ExecOp::EmbedGatherRows { out, .. } => lies_in(out, buffer),
        ExecOp::GemvChain { jobs } => exists|i: int|
            0 <= i < jobs@.len() && stores(#[trigger] jobs@[i], buffer),
    }
}

/// Whether one of the steps reads a buffer.
pub open spec fn some_reads(steps: Seq<StepView>, buffer: u64) -> bool {
    exists|s: int| 0 <= s < steps.len() && (#[trigger] steps[s]).access.reads.contains(buffer)
}

/// Whether one of the steps writes a buffer.
pub open spec fn some_writes(steps: Seq<StepView>, buffer: u64) -> bool {
    exists|s: int| 0 <= s < steps.len() && (#[trigger] steps[s]).access.writes.contains(buffer)
}

proof fn lemma_one(steps: Seq<StepView>, buffer: u64)
    requires
        steps.len() == 1,
    ensures
        some_reads(steps, buffer) <==> steps[0].access.reads.contains(buffer),
        some_writes(steps, buffer) <==> steps[0].access.writes.contains(buffer),
{
}

/// A chain touches what its jobs touch.
proof fn lemma_chain(jobs: Seq<MatmulOp>, upto: int, buffer: u64)
    requires
        0 <= upto <= jobs.len(),
        forall|i: int| 0 <= i < jobs.len() ==> {
            &&& (#[trigger] jobs[i]).store is Absent
            &&& !jobs[i].call.accumulate
            &&& jobs[i].epilogue.bias is None
        },
    ensures
        chain_access(jobs, upto).reads.contains(buffer) <==> exists|i: int|
            0 <= i < upto && loads(#[trigger] jobs[i], buffer),
        chain_access(jobs, upto).writes.contains(buffer) <==> exists|i: int|
            0 <= i < upto && stores(#[trigger] jobs[i], buffer),
        !chain_access(jobs, upto).flushes,
    decreases upto,
{
    lemma_links();
    if upto > 0 {
        lemma_chain(jobs, upto - 1, buffer);
        let op = jobs[upto - 1];
        let before = chain_access(jobs, upto - 1);
        let a1 = before.and_reads(op.call.a@.buffer.handle);
        let a2 = a1.and_reads(op.call.b@.buffer.handle);
        let a3 = a2.and_writes(op.call.c@.buffer.handle);
        let a4 = match op.epilogue.d_of() {
            Some(d) => a3.and_reads(d@.buffer.handle),
            None => a3,
        };
        assert(a3.reads.contains(buffer) <==> before.reads.contains(buffer) || lies_in(
            op.call.a,
            buffer,
        ) || lies_in(op.call.b, buffer));
        assert(a3.writes.contains(buffer) <==> before.writes.contains(buffer) || lies_in(
            op.call.c,
            buffer,
        ));
        assert(a4.writes.contains(buffer) <==> a3.writes.contains(buffer));
        let now = chain_access(jobs, upto);
        assert(now.reads.contains(buffer) <==> before.reads.contains(buffer) || loads(op, buffer));
        assert(now.writes.contains(buffer) <==> before.writes.contains(buffer) || stores(op, buffer));
        if exists|i: int| 0 <= i < upto - 1 && loads(#[trigger] jobs[i], buffer) {
            let i = choose|i: int| 0 <= i < upto - 1 && loads(#[trigger] jobs[i], buffer);
            assert(0 <= i < upto && loads(jobs[i], buffer));
        }
        if exists|i: int| 0 <= i < upto - 1 && stores(#[trigger] jobs[i], buffer) {
            let i = choose|i: int| 0 <= i < upto - 1 && stores(#[trigger] jobs[i], buffer);
            assert(0 <= i < upto && stores(jobs[i], buffer));
        }
    }
}

/// What is recorded of an operation of a mixed graph for the sake of barriers
/// is what it loads and stores: each buffer that it loads from is read by one
/// of its steps, each that it stores to is written by one, and nothing else
/// is.
#[verifier::rlimit(60)]
pub proof fn operation_access_is_what_it_touches(
    x: ExecutorView,
    op: ExecOp,
    index: int,
    buffer: u64,
)
    requires
        op_steps(x, op, index) is Ok,
    ensures
        ({
            let steps = (op_steps(x, op, index)->Ok_0).0;
            &&& 1 <= steps.len() <= 2
            &&& some_reads(steps, buffer) <==> op_loads(op, buffer)
            &&& some_writes(steps, buffer) <==> op_stores(op, buffer)
            &&& forall|s: int| #![trigger steps[s]]
                0 <= s < steps.len() ==> steps[s].op == index && !steps[s].access.flushes
        }),
{
    let steps = (op_steps(x, op, index)->Ok_0).0;
    let a = steps[0].access;
    lemma_links();
    match op {
        ExecOp::Matmul(op) => {
            matmul_access_is_what_it_touches(op, buffer);
            lemma_one(steps, buffer);
        },
        ExecOp::GemvChain { jobs } => {
            lemma_chain_plain(x, jobs@);
            lemma_chain(jobs@, jobs@.len() as int, buffer);
            lemma_one(steps, buffer);
        },
        ExecOp::AttnDecode { q, kt, v, scratch, out, desc } => {
            let b = steps[1].access;
            assert(some_reads(steps, buffer) <==> a.reads.contains(buffer) || b.reads.contains(
                buffer,
            )) by {
                if a.reads.contains(buffer) {
                    assert(steps[0].access.reads.contains(buffer));
                }
                if b.reads.contains(buffer) {
                    assert(steps[1].access.reads.contains(buffer));
                }
            }
            assert(some_writes(steps, buffer) <==> a.writes.contains(buffer) || b.writes.contains(
                buffer,
            )) by {
                if a.writes.contains(buffer) {
                    assert(steps[0].access.writes.contains(buffer));
                }
                if b.writes.contains(buffer) {
                    assert(steps[1].access.writes.contains(buffer));
                }
            }
        },
        _ => {
            lemma_one(steps, buffer);
        },
    }
}

/// The jobs of a chain that is not refused fuse no store, accumulate nothing
/// and add no bias.
proof fn lemma_chain_plain(x: ExecutorView, jobs: Seq<MatmulOp>)
    requires
        chain_refusal(x.ctx, jobs) is None,
    ensures
        forall|i: int| 0 <= i < jobs.len() ==> {
            &&& (#[trigger] jobs[i]).store is Absent
            &&& !jobs[i].call.accumulate
            &&& jobs[i].epilogue.bias is None
        },
{
    crate::executor::elementwise::gemv_chain::lemma_no_job_refused(
        x.ctx,
        jobs,
        jobs.len() as int,
    );
    assert forall|i: int| 0 <= i < jobs.len() implies {
        &&& (#[trigger] jobs[i]).store is Absent
        &&& !jobs[i].call.accumulate
        &&& jobs[i].epilogue.bias is None
    } by {
        assert(crate::executor::elementwise::gemv_chain::job_refusal(x.ctx, jobs[i], i as usize) is None);
    }
}

/// The dispatch of an operation of a graph that is a single one.
pub open spec fn lone_dispatch(x: ExecutorView, op: ExecOp, index: int) -> Result<
    ElementwiseDispatch,
    ErrorView,
> {
    match op_steps(x, op, index) {
        Err(e) => Err(e),
        Ok((steps, _)) => Ok(steps[0].planned->Elementwise_0),
    }
}

/// An operation of a graph is planned as it is on its own, or refused for the
/// same reason.
#[verifier::rlimit(60)]
pub proof fn graph_operations_are_planned_as_on_their_own(x: ExecutorView, op: ExecOp, index: int)
    ensures
        match op {
            ExecOp::RmsNorm { input, weight, output, eps } => lone_dispatch(x, op, index)
                == norm_plan(x.ctx, OpName::RmsNorm, input@, weight@, None, output@, eps),
            ExecOp::LayerNorm { input, weight, bias, output, eps } => lone_dispatch(x, op, index)
                == norm_plan(x.ctx, OpName::LayerNorm, input@, weight@, Some(bias@), output@, eps),
            ExecOp::SoftmaxRows { input, output, scale, mask } => lone_dispatch(x, op, index)
                == softmax_plan(x.ctx, input@, output@, scale, mask),
            ExecOp::Rope { input, table, output, desc } => lone_dispatch(x, op, index) == rope_plan(
                x.ctx,
                input@,
                table@,
                output@,
                desc,
            ),
            ExecOp::RopeScatter { input, table, dst, desc, scatter } => lone_dispatch(x, op, index)
                == rope_scatter_plan(x.ctx, input@, table@, dst@, desc, scatter),
            ExecOp::CopyStrided { src, dst, desc } => lone_dispatch(x, op, index) == copy_plan(
                x.ctx,
                src@,
                dst@,
                desc,
            ),
            ExecOp::Binary { a, b, out, op: combine } => lone_dispatch(x, op, index) == binary_plan(
                x.ctx,
                a@,
                b@,
                out@,
                combine,
            ),
            ExecOp::FlashAttn { q, kt, v, out, desc } => lone_dispatch(x, op, index) == flash_plan(
                x.ctx,
                q@,
                kt@,
                v@,
                out@,
                desc,
                false,
            ),
            ExecOp::PrefillQkvPack { qkv, table, q, kt, v, desc } => lone_dispatch(x, op, index)
                == pack_plan(x.ctx, qkv@, table@, q@, kt@, v@, desc),
            ExecOp::Argmax { input, result } => lone_dispatch(x, op, index) == argmax_plan(
                x.ctx,
                input@,
                result.backing(),
            ),
            ExecOp::EmbedGather { token, table, out } => lone_dispatch(x, op, index) == gather_plan(
                x.ctx,
                token.backing(),
                table@,
                out@,
            ),
            ExecOp::EmbedGatherRows { tokens, table, out } => lone_dispatch(x, op, index)
                == gather_plan(x.ctx, tokens.backing(), table@, out@),
            ExecOp::AttnDecode { q, kt, v, scratch, out, desc } => match attn_plan(
                x.ctx,
                attn_operands(q, kt, v, scratch, out),
                desc,
            ) {
                Err(e) => op_steps(x, op, index) == Err::<(Seq<StepView>, int), ErrorView>(e),
                Ok((first, second)) => op_steps(x, op, index) matches Ok((steps, work)) && {
                    &&& steps.len() == 2 && work == 0
                    &&& steps[0].planned == PlannedView::Elementwise(first)
                    &&& steps[1].planned == PlannedView::Elementwise(second)
                    &&& steps[0].access.writes.contains(scratch@.buffer.handle)
                    &&& steps[1].access.reads.contains(scratch@.buffer.handle)
                    &&& steps[1].access.writes.contains(out@.buffer.handle)
                },
            },
            ExecOp::Matmul(matmul) => op_steps(x, op, index) matches Ok((steps, work)) ==> {
                &&& steps[0].planned matches PlannedView::Matmul { dims, plan } && resolve_op(matmul)
                    == Ok::<ResolvedMatmul, ErrorView>(dims) && work == 2 * dims.batch * dims.m
                    * dims.n * dims.k
            },
            ExecOp::GemvChain { jobs } => op_steps(x, op, index) matches Ok((steps, _)) ==> {
                &&& chain_refusal(x.ctx, jobs@) is None
                &&& steps[0].planned matches PlannedView::Chain { jobs: packed, n_wg } && packed
                    == chain_jobs(jobs@) && n_wg == chain_groups(packed)
            },
        },
{
    lemma_links();
    match op {
        ExecOp::Matmul(matmul) => {
            if resolve_op(matmul) is Ok {
                let call = matmul.call;
                crate::matmul::resolution::resolved_is_addressable(
                    call.a@.shape,
                    call.b@.shape,
                    call.c@.shape,
                );
            }
        },
        ExecOp::GemvChain { jobs } => {
            crate::executor::elementwise::gemv_chain::chain_grid_is_bounded(chain_jobs(jobs@));
        },
        _ => {},
    }
}

/// [`op_steps`], as a whole.
#[verifier::opaque]
spec fn own_steps(x: ExecutorView, op: ExecOp, index: int) -> Result<(Seq<StepView>, int), ErrorView> {
    op_steps(x, op, index)
}

/// The steps of a planned graph, as a whole.
#[verifier::opaque]
spec fn all_steps(x: ExecutorView, ops: Seq<ExecOp>, upto: int) -> Seq<StepView> {
    (graph_steps(x, ops, upto)->Ok_0).0
}

/// A graph is planned up to an operation.
#[verifier::opaque]
spec fn comes_to(x: ExecutorView, ops: Seq<ExecOp>, upto: int) -> bool {
    graph_steps(x, ops, upto) is Ok
}

proof fn lemma_one_more(x: ExecutorView, ops: Seq<ExecOp>, upto: int)
    requires
        upto > 0,
        comes_to(x, ops, upto),
    ensures
        comes_to(x, ops, upto - 1),
        own_steps(x, ops[upto - 1], upto - 1) is Ok,
        all_steps(x, ops, upto) == all_steps(x, ops, upto - 1) + (own_steps(
            x,
            ops[upto - 1],
            upto - 1,
        )->Ok_0).0,
{
    reveal(own_steps);
    reveal(all_steps);
    reveal(comes_to);
}

proof fn lemma_own(x: ExecutorView, op: ExecOp, index: int, buffer: u64)
    requires
        own_steps(x, op, index) is Ok,
    ensures
        ({
            let steps = (own_steps(x, op, index)->Ok_0).0;
            &&& 1 <= steps.len() <= 2
            &&& some_reads(steps, buffer) <==> op_loads(op, buffer)
            &&& some_writes(steps, buffer) <==> op_stores(op, buffer)
            &&& forall|s: int| #![trigger steps[s]]
                0 <= s < steps.len() ==> steps[s].op == index && !steps[s].access.flushes
        }),
{
    reveal(own_steps);
    operation_access_is_what_it_touches(x, op, index, buffer);
}

/// Whether one of the steps belongs to an operation and reads a buffer.
pub open spec fn reads_for(steps: Seq<StepView>, i: int, buffer: u64) -> bool {
    exists|s: int|
        0 <= s < steps.len() && (#[trigger] steps[s]).op == i && steps[s].access.reads.contains(
            buffer,
        )
}

/// Whether one of the steps belongs to an operation and writes a buffer.
pub open spec fn writes_for(steps: Seq<StepView>, i: int, buffer: u64) -> bool {
    exists|s: int|
        0 <= s < steps.len() && (#[trigger] steps[s]).op == i && steps[s].access.writes.contains(
            buffer,
        )
}

/// Steps stand in the order of their operations.
pub open spec fn in_order(steps: Seq<StepView>, upto: int) -> bool {
    &&& forall|s: int|
        0 <= s < steps.len() ==> 0 <= (#[trigger] steps[s]).op < upto && !steps[s].access.flushes
    &&& forall|s: int, t: int|
        0 <= s < t < steps.len() ==> (#[trigger] steps[s]).op <= (#[trigger] steps[t]).op
}

proof fn lemma_in_order(x: ExecutorView, ops: Seq<ExecOp>, upto: int)
    requires
        0 <= upto,
        comes_to(x, ops, upto),
    ensures
        in_order(all_steps(x, ops, upto), upto),
    decreases upto,
{
    let steps = all_steps(x, ops, upto);
    if upto == 0 {
        reveal(all_steps);
        assert(steps.len() == 0);
    } else {
        lemma_one_more(x, ops, upto);
        lemma_in_order(x, ops, upto - 1);
        let front = all_steps(x, ops, upto - 1);
        let own = (own_steps(x, ops[upto - 1], upto - 1)->Ok_0).0;
        lemma_own(x, ops[upto - 1], upto - 1, 0);
        assert forall|s: int| 0 <= s < steps.len() implies 0 <= (#[trigger] steps[s]).op < upto
            && !steps[s].access.flushes by {
            if s < front.len() {
                assert(steps[s] == front[s]);
            } else {
                assert(steps[s] == own[s - front.len()]);
            }
        }
        assert forall|s: int, t: int| 0 <= s < t < steps.len() implies (#[trigger] steps[s]).op
            <= (#[trigger] steps[t]).op by {
            if t < front.len() {
                assert(steps[s] == front[s] && steps[t] == front[t]);
            } else {
                assert(steps[t] == own[t - front.len()]);
            }
        }
    }
}

proof fn lemma_touches(x: ExecutorView, ops: Seq<ExecOp>, upto: int, i: int, buffer: u64)
    requires
        0 <= i < upto,
        comes_to(x, ops, upto),
    ensures
        reads_for(all_steps(x, ops, upto), i, buffer) <==> op_loads(ops[i], buffer),
        writes_for(all_steps(x, ops, upto), i, buffer) <==> op_stores(ops[i], buffer),
    decreases upto,
{
    lemma_one_more(x, ops, upto);
    let steps = all_steps(x, ops, upto);
    let front = all_steps(x, ops, upto - 1);
    let own = (own_steps(x, ops[upto - 1], upto - 1)->Ok_0).0;
    lemma_own(x, ops[upto - 1], upto - 1, buffer);
    lemma_in_order(x, ops, upto - 1);
    assert forall|s: int| 0 <= s < front.len() implies (#[trigger] front[s]) == steps[s] by {}
    assert forall|s: int| 0 <= s < own.len() implies (#[trigger] own[s]) == steps[front.len() + s] by {}
    if i < upto - 1 {
        lemma_touches(x, ops, upto - 1, i, buffer);
        lemma_front_keeps(front, own, i, upto - 1, buffer);
        assert(steps =~= front + own);
    } else {
        lemma_back_adds(front, own, i, buffer);
        assert(steps =~= front + own);
    }
}

proof fn lemma_front_keeps(front: Seq<StepView>, own: Seq<StepView>, i: int, last: int, buffer: u64)
    requires
        i < last,
        forall|s: int| #![trigger own[s]] 0 <= s < own.len() ==> own[s].op == last,
    ensures
        reads_for(front + own, i, buffer) <==> reads_for(front, i, buffer),
        writes_for(front + own, i, buffer) <==> writes_for(front, i, buffer),
{
    let all = front + own;
    assert forall|s: int| 0 <= s < all.len() && (#[trigger] all[s]).op == i implies s < front.len()
        && all[s] == front[s] by {
        if s >= front.len() {
            assert(all[s] == own[s - front.len()]);
        }
    }
    if reads_for(front, i, buffer) {
        let s = choose|s: int|
            0 <= s < front.len() && (#[trigger] front[s]).op == i
                && front[s].access.reads.contains(buffer);
        assert(all[s] == front[s]);
    }
    if writes_for(front, i, buffer) {
        let s = choose|s: int|
            0 <= s < front.len() && (#[trigger] front[s]).op == i
                && front[s].access.writes.contains(buffer);
        assert(all[s] == front[s]);
    }
}

proof fn lemma_back_adds(front: Seq<StepView>, own: Seq<StepView>, i: int, buffer: u64)
    requires
        forall|s: int| #![trigger own[s]] 0 <= s < own.len() ==> own[s].op == i,
        forall|s: int| #![trigger front[s]] 0 <= s < front.len() ==> front[s].op < i,
    ensures
        reads_for(front + own, i, buffer) <==> some_reads(own, buffer),
        writes_for(front + own, i, buffer) <==> some_writes(own, buffer),
{
    let all = front + own;
    assert forall|s: int| 0 <= s < all.len() && (#[trigger] all[s]).op == i implies s >= front.len()
        && all[s] == own[s - front.len()] by {
        if s < front.len() {
            assert(all[s] == front[s]);
        }
    }
    if some_reads(own, buffer) {
        let s = choose|s: int|
            0 <= s < own.len() && (#[trigger] own[s]).access.reads.contains(buffer);
        assert(all[front.len() + s] == own[s]);
    }
    if some_writes(own, buffer) {
        let s = choose|s: int|
            0 <= s < own.len() && (#[trigger] own[s]).access.writes.contains(buffer);
        assert(all[front.len() + s] == own[s]);
    }
    if reads_for(all, i, buffer) {
        let s = choose|s: int|
            0 <= s < all.len() && (#[trigger] all[s]).op == i && all[s].access.reads.contains(buffer);
        assert(own[s - front.len()].access.reads.contains(buffer));
    }
    if writes_for(all, i, buffer) {
        let s = choose|s: int|
            0 <= s < all.len() && (#[trigger] all[s]).op == i && all[s].access.writes.contains(
                buffer,
            );
        assert(own[s - front.len()].access.writes.contains(buffer));
    }
}

/// The steps of a planned graph stand in the order of its operations, and
/// those of each operation read and write what it loads and stores.
pub proof fn planned_steps_touch_what_operations_touch(
    x: ExecutorView,
    ops: Seq<ExecOp>,
    i: int,
    buffer: u64,
)
    requires
        graph_steps(x, ops, ops.len() as int) is Ok,
        0 <= i < ops.len(),
    ensures
        ({
            let steps = (graph_steps(x, ops, ops.len() as int)->Ok_0).0;
            &&& in_order(steps, ops.len() as int)
            &&& reads_for(steps, i, buffer) <==> op_loads(ops[i], buffer)
            &&& writes_for(steps, i, buffer) <==> op_stores(ops[i], buffer)
        }),
{
    let n = ops.len() as int;
    assert(comes_to(x, ops, n) && all_steps(x, ops, n) == (graph_steps(x, ops, n)->Ok_0).0) by {
        reveal(comes_to);
        reveal(all_steps);
    }
    lemma_in_order(x, ops, n);
    lemma_touches(x, ops, n, i, buffer);
}

/// Whether a barrier stands behind one step and at or before another.
pub open spec fn barrier_between(commands: Seq<ExecCommand>, s: int, t: int) -> bool {
    exists|p: int| s < p <= t && (#[trigger] commands[p]).barrier
}

/// Two steps of a recorded graph of which one writes what the other touches
/// have a barrier between them.
pub proof fn steps_that_share_a_buffer_are_separated(
    x: ExecutorView,
    ops: Seq<ExecOp>,
    steps: Seq<StepView>,
    s: int,
    t: int,
    buffer: u64,
)
    requires
        0 <= s < t < steps.len(),
        forall|k: int| #![trigger steps[k]] 0 <= k < steps.len() ==> !steps[k].access.flushes,
        exec_commands(x, ops, steps, steps.len() as int) is Ok,
        ordered(
            steps[s].access.reads.contains(buffer),
            steps[s].access.writes.contains(buffer),
            steps[t].access.reads.contains(buffer),
            steps[t].access.writes.contains(buffer),
        ),
    ensures
        barrier_between((exec_commands(x, ops, steps, steps.len() as int)->Ok_0).0, s, t),
{
    let accesses = accesses_of(steps);
    let commands = (exec_commands(x, ops, steps, steps.len() as int)->Ok_0).0;
    recorded_barriers_match_count(x, ops, steps, steps.len() as int);
    assert(accesses[s] == steps[s].access && accesses[t] == steps[t].access);
    assert(accesses[t].conflicts(accesses[s]));
    conflicting_dispatches_are_separated(accesses, s, t);
    if barrier_at(accesses, t) {
        assert(commands[t].barrier);
    } else {
        let p = choose|p: int| s < p < t && #[trigger] separates(accesses, p);
        assert(accesses[p] == steps[p].access);
        assert(commands[p].barrier);
    }
}

/// An operation of a recorded graph waits for every earlier one that it
/// depends on: where it loads from or stores to a buffer that the earlier one
/// stores to, or stores to one that the earlier one loads from, a barrier
/// stands between the steps of the two that touch the buffer.
pub proof fn dependent_graph_operations_wait(
    x: ExecutorView,
    ops: Seq<ExecOp>,
    i: int,
    j: int,
    buffer: u64,
)
    requires
        0 <= i < j < ops.len(),
        graph_steps(x, ops, ops.len() as int) is Ok,
        ({
            let steps = (graph_steps(x, ops, ops.len() as int)->Ok_0).0;
            exec_commands(x, ops, steps, steps.len() as int) is Ok
        }),
        ordered(
            op_loads(ops[i], buffer),
            op_stores(ops[i], buffer),
            op_loads(ops[j], buffer),
            op_stores(ops[j], buffer),
        ),
    ensures
        ({
            let steps = (graph_steps(x, ops, ops.len() as int)->Ok_0).0;
            let commands = (exec_commands(x, ops, steps, steps.len() as int)->Ok_0).0;
            exists|s: int, t: int|
                #![trigger steps[s], steps[t]]
                0 <= s < t < steps.len() && steps[s].op == i && steps[t].op == j && ordered(
                    steps[s].access.reads.contains(buffer),
                    steps[s].access.writes.contains(buffer),
                    steps[t].access.reads.contains(buffer),
                    steps[t].access.writes.contains(buffer),
                ) && barrier_between(commands, s, t)
        }),
{
    let steps = (graph_steps(x, ops, ops.len() as int)->Ok_0).0;
    planned_steps_touch_what_operations_touch(x, ops, i, buffer);
    planned_steps_touch_what_operations_touch(x, ops, j, buffer);
    lemma_pair(x, ops, steps, i, j, buffer);
}

proof fn lemma_pair(
    x: ExecutorView,
    ops: Seq<ExecOp>,
    steps: Seq<StepView>,
    i: int,
    j: int,
    buffer: u64,
)
    requires
        i < j,
        in_order(steps, ops.len() as int),
        exec_commands(x, ops, steps, steps.len() as int) is Ok,
        ordered(
            reads_for(steps, i, buffer),
            writes_for(steps, i, buffer),
            reads_for(steps, j, buffer),
            writes_for(steps, j, buffer),
        ),
    ensures
        ({
            let commands = (exec_commands(x, ops, steps, steps.len() as int)->Ok_0).0;
            exists|s: int, t: int|
                #![trigger steps[s], steps[t]]
                0 <= s < t < steps.len() && steps[s].op == i && steps[t].op == j && ordered(
                    steps[s].access.reads.contains(buffer),
                    steps[s].access.writes.contains(buffer),
                    steps[t].access.reads.contains(buffer),
                    steps[t].access.writes.contains(buffer),
                ) && barrier_between(commands, s, t)
        }),
{
    let commands = (exec_commands(x, ops, steps, steps.len() as int)->Ok_0).0;
    let writes_first = writes_for(steps, i, buffer) && (reads_for(steps, j, buffer) || writes_for(
        steps,
        j,
        buffer,
    ));
    let s = if writes_first {
        choose|s: int|
            0 <= s < steps.len() && (#[trigger] steps[s]).op == i
                && steps[s].access.writes.contains(buffer)
    } else {
        choose|s: int|
            0 <= s < steps.len() && (#[trigger] steps[s]).op == i
                && steps[s].access.reads.contains(buffer)
    };
    let t = if writes_for(steps, j, buffer) {
        choose|t: int|
            0 <= t < steps.len() && (#[trigger] steps[t]).op == j
                && steps[t].access.writes.contains(buffer)
    } else {
        choose|t: int|
            0 <= t < steps.len() && (#[trigger] steps[t]).op == j
                && steps[t].access.reads.contains(buffer)
    };
    assert(steps[s].op == i && steps[t].op == j);
    if t <= s {
        if t < s {
            assert(steps[t].op <= steps[s].op);
        }
    }
    steps_that_share_a_buffer_are_separated(x, ops, steps, s, t, buffer);
    assert(barrier_between(commands, s, t));
}

/// No barrier of a recorded graph is idle: the step behind it shares a buffer
/// that one of them writes with an earlier step, and no barrier stands
/// between those two already.
pub proof fn graph_barriers_are_needed(
    x: ExecutorView,
    ops: Seq<ExecOp>,
    steps: Seq<StepView>,
    t: int,
)
    requires
        0 <= t < steps.len(),
        forall|k: int| #![trigger steps[k]] 0 <= k < steps.len() ==> !steps[k].access.flushes,
        exec_commands(x, ops, steps, steps.len() as int) is Ok,
        (exec_commands(x, ops, steps, steps.len() as int)->Ok_0).0[t].barrier,
    ensures
        ({
            let commands = (exec_commands(x, ops, steps, steps.len() as int)->Ok_0).0;
            exists|s: int, buffer: u64|
                #![trigger steps[s].access.reads.contains(buffer)]
                #![trigger steps[s].access.writes.contains(buffer)]
                0 <= s < t && ordered(
                    steps[s].access.reads.contains(buffer),
                    steps[s].access.writes.contains(buffer),
                    steps[t].access.reads.contains(buffer),
                    steps[t].access.writes.contains(buffer),
                ) && !barrier_between(commands, s, t - 1)
        }),
{
    let accesses = accesses_of(steps);
    let commands = (exec_commands(x, ops, steps, steps.len() as int)->Ok_0).0;
    recorded_barriers_match_count(x, ops, steps, steps.len() as int);
    every_barrier_is_needed(accesses, t);
    let s = choose|s: int| #![trigger accesses[s]]
        0 <= s < t && accesses[t].conflicts(accesses[s])
            && crate::executor::hazard::unseparated(accesses, s, t);
    let (a, b) = (accesses[t], accesses[s]);
    assert(a == steps[t].access && b == steps[s].access);
    assert(!barrier_between(commands, s, t - 1)) by {
        if barrier_between(commands, s, t - 1) {
            let p = choose|p: int| s < p <= t - 1 && (#[trigger] commands[p]).barrier;
            assert(separates(accesses, p));
        }
    }
    if exists|x: u64| #[trigger] a.reads.contains(x) && b.writes.contains(x) {
        let x = choose|x: u64| #[trigger] a.reads.contains(x) && b.writes.contains(x);
        assert(steps[s].access.writes.contains(x));
    } else if exists|x: u64| #[trigger] a.writes.contains(x) && b.writes.contains(x) {
        let x = choose|x: u64| #[trigger] a.writes.contains(x) && b.writes.contains(x);
        assert(steps[s].access.writes.contains(x));
    } else {
        let x = choose|x: u64| #[trigger] a.writes.contains(x) && b.reads.contains(x);
        assert(steps[s].access.reads.contains(x));
    }
}

/// Whether a command of a recorded matmul graph keeps what comes behind it
/// apart from what came before it: by the barrier before it, or by the one
/// between the two stages of a split.
pub open spec fn keeps_apart(command: GraphCommand) -> bool {
    command.barrier || command.step is SplitK2
}

/// What is recorded of a matmul of a graph for the sake of barriers is what
/// it loads and stores, split or not.
pub proof fn graph_access_is_what_it_touches(op: MatmulOp, split: SplitSlot, buffer: u64)
    requires
        split is Some ==> crate::executor::dispatch::plain_form(op),
    ensures
        graph_access(op, split).reads.contains(buffer) <==> loads(op, buffer),
        graph_access(op, split).writes.contains(buffer) <==> stores(op, buffer),
        graph_access(op, split).flushes <==> split is Some,
{
    matmul_access_is_what_it_touches(op, buffer);
    lemma_links();
    if split is Some {
        let a0 = no_access();
        let a1 = a0.and_reads(op.call.a@.buffer.handle);
        let a2 = a1.and_reads(op.call.b@.buffer.handle);
        let a3 = a2.and_writes(op.call.c@.buffer.handle);
        assert(a1.reads.contains(buffer) <==> lies_in(op.call.a, buffer));
        assert(a2.reads.contains(buffer) <==> lies_in(op.call.a, buffer) || lies_in(
            op.call.b,
            buffer,
        ));
        assert(a3.reads.contains(buffer) <==> a2.reads.contains(buffer));
        assert(a3.writes.contains(buffer) <==> lies_in(op.call.c, buffer));
        assert(graph_access(op, split).reads == a3.reads);
        assert(graph_access(op, split).writes == a3.writes);
    }
}

/// A matmul of a recorded graph waits for every earlier one that it depends
/// on: a barrier precedes it, or something in between keeps the two apart. A
/// split that only stores to what the earlier one touches waits by the barrier
/// between its own stages.
pub proof fn dependent_matmuls_wait(
    x: ExecutorView,
    ops: Seq<MatmulOp>,
    resolved: Seq<ResolvedMatmul>,
    plans: Seq<OpPlan>,
    splits: Seq<SplitSlot>,
    scratch: u64,
    i: int,
    j: int,
    buffer: u64,
)
    requires
        0 <= i < j < ops.len(),
        forall|k: int|
            0 <= k < ops.len() && splits[k] is Some ==> crate::executor::dispatch::plain_form(
                #[trigger] ops[k],
            ),
        graph_commands(x, ops, resolved, plans, splits, scratch, ops.len() as int) is Ok,
        ordered(
            loads(ops[i], buffer),
            stores(ops[i], buffer),
            loads(ops[j], buffer),
            stores(ops[j], buffer),
        ),
    ensures
        ({
            let commands = (graph_commands(
                x,
                ops,
                resolved,
                plans,
                splits,
                scratch,
                ops.len() as int,
            )->Ok_0).0;
            ||| commands[j].barrier
            ||| exists|p: int| i < p < j && keeps_apart(#[trigger] commands[p])
            ||| commands[j].step is SplitK2 && !(stores(ops[i], buffer) && loads(ops[j], buffer))
        }),
{
    let n = ops.len() as int;
    let accesses = graph_accesses(ops, splits);
    let commands = (graph_commands(x, ops, resolved, plans, splits, scratch, n)->Ok_0).0;
    graph_barriers_match_hazards(x, ops, resolved, plans, splits, scratch, n);
    assert(accesses[i] == graph_access(ops[i], splits[i]));
    assert(accesses[j] == graph_access(ops[j], splits[j]));
    graph_access_is_what_it_touches(ops[i], splits[i], buffer);
    graph_access_is_what_it_touches(ops[j], splits[j], buffer);
    assert(commands[j].step is SplitK2 <==> splits[j] is Some);
    if !(splits[j] is Some && !(stores(ops[i], buffer) && loads(ops[j], buffer))) {
        assert(accesses[j].conflicts(accesses[i]));
        conflicting_dispatches_are_separated(accesses, i, j);
        if barrier_at(accesses, j) {
            assert(commands[j].barrier);
        } else {
            let p = choose|p: int| i < p < j && #[trigger] separates(accesses, p);
            assert(accesses[p] == graph_access(ops[p], splits[p]));
            graph_access_is_what_it_touches(ops[p], splits[p], buffer);
            assert(keeps_apart(commands[p]));
        }
    }
}

/// Every operation of a recorded batch is dispatched as it is on its own, in
/// order, and the pipeline that is bound when a dispatch is recorded is its
/// own: it binds it, or the dispatch before it had the same.
pub proof fn batches_record_every_operation(
    x: ExecutorView,
    ops: Seq<MatmulOp>,
    resolved: Seq<ResolvedMatmul>,
    plans: Seq<OpPlan>,
    upto: int,
)
    requires
        0 <= upto,
        batch_commands(x, ops, resolved, plans, upto) is Ok,
    ensures
        ({
            let (commands, bound) = batch_commands(x, ops, resolved, plans, upto)->Ok_0;
            &&& commands.len() == upto
            &&& forall|i: int|
                0 <= i < upto ==> dispatch_result(x.ctx, ops[i], resolved[i], plans[i].kernel) == Ok::<
                    _,
                    ErrorView,
                >((#[trigger] commands[i]).dispatch)
            &&& forall|i: int|
                0 <= i < upto && !(#[trigger] commands[i]).bind ==> i > 0 && commands[i
                    - 1].dispatch.pipeline == commands[i].dispatch.pipeline
            &&& upto > 0 ==> bound == Some(commands[upto - 1].dispatch.pipeline)
            &&& upto == 0 ==> bound is None
        }),
    decreases upto,
{
    if upto > 0 {
        batches_record_every_operation(x, ops, resolved, plans, upto - 1);
        let (before, _) = batch_commands(x, ops, resolved, plans, upto - 1)->Ok_0;
        let (commands, _) = batch_commands(x, ops, resolved, plans, upto)->Ok_0;
        assert(forall|i: int| 0 <= i < upto - 1 ==> commands[i] == before[i]);
    }
}

/// The same of a graph: an operation without a split is dispatched as it is
/// on its own, and behind a split every pipeline is bound anew.
pub proof fn graphs_record_every_operation(
    x: ExecutorView,
    ops: Seq<MatmulOp>,
    resolved: Seq<ResolvedMatmul>,
    plans: Seq<OpPlan>,
    splits: Seq<SplitSlot>,
    scratch: u64,
    upto: int,
)
    requires
        0 <= upto,
        graph_commands(x, ops, resolved, plans, splits, scratch, upto) is Ok,
    ensures
        ({
            let (commands, bound) = graph_commands(
                x,
                ops,
                resolved,
                plans,
                splits,
                scratch,
                upto,
            )->Ok_0;
            &&& commands.len() == upto
            &&& forall|i: int|
                0 <= i < upto ==> ((#[trigger] commands[i]).step matches GraphStep::Matmul(c) ==> {
                    &&& splits[i] is None
                    &&& dispatch_result(x.ctx, ops[i], resolved[i], plans[i].kernel) == Ok::<
                        _,
                        ErrorView,
                    >(c.dispatch)
                    &&& !c.bind ==> i > 0 && (commands[i - 1].step matches GraphStep::Matmul(b)
                        && b.dispatch.pipeline == c.dispatch.pipeline)
                })
            &&& forall|i: int|
                0 <= i < upto && splits[i] is Some ==> (#[trigger] commands[i]).step is SplitK2
            &&& bound matches Some(id) ==> upto > 0 && (commands[upto - 1].step
                matches GraphStep::Matmul(c) && c.dispatch.pipeline == id)
        }),
    decreases upto,
{
    if upto > 0 {
        graphs_record_every_operation(x, ops, resolved, plans, splits, scratch, upto - 1);
        let (before, _) = graph_commands(
            x,
            ops,
            resolved,
            plans,
            splits,
            scratch,
            upto - 1,
        )->Ok_0;
        let (commands, _) = graph_commands(x, ops, resolved, plans, splits, scratch, upto)->Ok_0;
        assert(forall|i: int| 0 <= i < upto - 1 ==> commands[i] == before[i]);
    }
}

/// The same of a mixed graph: every step is recorded as it was planned, a
/// matmul step as its operation is dispatched on its own, and behind any other
/// step the pipeline of a matmul is bound anew.
pub proof fn mixed_graphs_record_every_step(
    x: ExecutorView,
    ops: Seq<ExecOp>,
    steps: Seq<StepView>,
    upto: int,
)
    requires
        0 <= upto <= steps.len(),
        exec_commands(x, ops, steps, upto) is Ok,
    ensures
        ({
            let (commands, bound) = exec_commands(x, ops, steps, upto)->Ok_0;
            &&& commands.len() == upto
            &&& forall|i: int|
                0 <= i < upto ==> match steps[i].planned {
                    PlannedView::Matmul { dims, plan } => (#[trigger] commands[i]).step
                        matches ExecStep::Matmul(c) && {
                        &&& dispatch_result(
                            x.ctx,
                            ops[steps[i].op]->Matmul_0,
                            dims,
                            plan.kernel,
                        ) == Ok::<_, ErrorView>(c.dispatch)
                        &&& !c.bind ==> i > 0 && (commands[i - 1].step matches ExecStep::Matmul(b)
                            && b.dispatch.pipeline == c.dispatch.pipeline)
                    },
                    PlannedView::Elementwise(d) => commands[i].step == ExecStep::Elementwise(d),
                    PlannedView::Chain { .. } => commands[i].step matches ExecStep::Chain { step }
                        && step == i as usize,
                }
            &&& bound matches Some(id) ==> upto > 0 && (commands[upto - 1].step
                matches ExecStep::Matmul(c) && c.dispatch.pipeline == id)
        }),
    decreases upto,
{
    if upto > 0 {
        mixed_graphs_record_every_step(x, ops, steps, upto - 1);
        let (before, _) = exec_commands(x, ops, steps, upto - 1)->Ok_0;
        let (commands, _) = exec_commands(x, ops, steps, upto)->Ok_0;
        assert(forall|i: int| 0 <= i < upto - 1 ==> commands[i] == before[i]);
    }
}

/// A job of a chain waits for every earlier one that it depends on: the job
/// just before it ends its group. Where no job depends on an earlier one, none
/// does.
pub proof fn dependent_jobs_wait(ops: Seq<MatmulOp>, j: int)
    requires
        0 < j < ops.len(),
    ensures
        chain_jobs(ops)[j - 1].flags as int / 0x100_0000 % 2 == 1 <==> exists|i: int, buffer: u64|
            #![trigger loads(ops[i], buffer)]
            #![trigger stores(ops[i], buffer)]
            0 <= i < j && ordered(
                loads(ops[i], buffer),
                stores(ops[i], buffer),
                loads(ops[j], buffer),
                stores(ops[j], buffer),
            ),
        chain_jobs(ops)[ops.len() - 1].flags < 0x100_0000,
{
    let waits = crate::executor::elementwise::gemv_chain::waits_for_earlier(ops, j);
    assert(chain_jobs(ops)[j - 1].flags as int / 0x100_0000 % 2 == 1 <==> waits);
    if waits {
        let p = choose|p: int| 0 <= p < j && op_access(ops[j]).conflicts(
            op_access(#[trigger] ops[p]),
        );
        let (a, b) = (op_access(ops[j]), op_access(ops[p]));
        matmul_access_is_what_it_touches(ops[j], 0);
        if exists|x: u64| #[trigger] a.reads.contains(x) && b.writes.contains(x) {
            let x = choose|x: u64| #[trigger] a.reads.contains(x) && b.writes.contains(x);
            matmul_access_is_what_it_touches(ops[j], x);
            matmul_access_is_what_it_touches(ops[p], x);
            assert(stores(ops[p], x));
        } else if exists|x: u64| #[trigger] a.writes.contains(x) && b.writes.contains(x) {
            let x = choose|x: u64| #[trigger] a.writes.contains(x) && b.writes.contains(x);
            matmul_access_is_what_it_touches(ops[j], x);
            matmul_access_is_what_it_touches(ops[p], x);
            assert(stores(ops[p], x));
        } else {
            let x = choose|x: u64| #[trigger] a.writes.contains(x) && b.reads.contains(x);
            matmul_access_is_what_it_touches(ops[j], x);
            matmul_access_is_what_it_touches(ops[p], x);
            assert(loads(ops[p], x));
        }
    }
    assert forall|i: int, buffer: u64|
        #![trigger loads(ops[i], buffer)]
        #![trigger stores(ops[i], buffer)]
        0 <= i < j && ordered(
            loads(ops[i], buffer),
            stores(ops[i], buffer),
            loads(ops[j], buffer),
            stores(ops[j], buffer),
        ) implies waits by {
        matmul_access_is_what_it_touches(ops[i], buffer);
        matmul_access_is_what_it_touches(ops[j], buffer);
        assert(op_access(ops[j]).conflicts(op_access(ops[i])));
    }
}

} // verus!
