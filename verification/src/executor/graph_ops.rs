//! Mixed graphs: a dependent chain of matmuls and other operations in one
//! submission, with barriers where they are owed.

use crate::dtype::Scalar;
use crate::error::{outcome, refused, refused_name, Error, ErrorView, OpName, Refusal};
use crate::executor::cells::{HostU32Buffer, PosBuffer, TokenIdBuffer};
use crate::executor::elementwise::attn::{attn_fits, attn_operands, attn_plan};
use crate::executor::elementwise::common::{
    AttnDecodeDesc, BinaryOp, CopyDesc, ElementwiseDispatch, FlashAttentionDesc,
    PrefillQkvPackDesc, RopeDesc, RopeScatterDesc, SoftmaxMask,
};
use crate::executor::elementwise::flash::{
    flash_fits, flash_plan, pack_fits, pack_plan,
};
use crate::executor::elementwise::gemv_chain::{
    chain_groups, chain_jobs, chain_refusal, GemvChainPlan, GEMV_CHAIN_MAX_JOBS,
};
use crate::executor::elementwise::ops::{
    argmax_plan, binary_plan, copy_fits,
    copy_plan, gather_plan, norm_plan, rope_fits, rope_plan, rope_scatter_plan, scatter_fits,
    softmax_plan,
};
use crate::executor::elementwise::pc::GemvJob;
use crate::executor::hazard::{
    access_of, barrier_at, barrier_count, no_access, op_access, pending_after, Access, AccessView,
    HazardCursor,
};
use crate::executor::plan::{
    demoted_plan, matmul_plan, op_routes, plan_present, slot_kernel, Executor, ExecutorView, OpPlan,
};
use crate::executor::recording::{dispatch_result, MatmulCommand};
use crate::executor::validation::op_context_result;
use crate::matmul::api::MatmulOp;
use crate::matmul::resolution::{resolve_op, ResolvedMatmul};
use crate::pipeline::catalog::KernelSpec;
use crate::pipeline::registry::PipelineId;
use crate::tensor::Tensor;
use vstd::prelude::*;

verus! {

/// One operation of a mixed graph. It may read any earlier one's output.
#[allow(inconsistent_fields)]
#[derive(Copy, Clone)]
pub enum ExecOp<'t> {
    /// A matmul with what is fused into it. Pointer-addressed kernels only.
    Matmul(MatmulOp<'t>),
    /// RMSNorm over the last dimension. In place is safe.
    RmsNorm { input: &'t Tensor, weight: &'t Tensor, output: &'t Tensor, eps: Scalar },
    /// LayerNorm over the last dimension. In place is safe.
    LayerNorm {
        input: &'t Tensor,
        weight: &'t Tensor,
        bias: &'t Tensor,
        output: &'t Tensor,
        eps: Scalar,
    },
    /// Masked row softmax. In place is safe.
    SoftmaxRows { input: &'t Tensor, output: &'t Tensor, scale: Scalar, mask: SoftmaxMask },
    /// Rotary embedding. In place is safe.
    Rope { input: &'t Tensor, table: &'t Tensor, output: &'t Tensor, desc: RopeDesc },
    /// Rotary embedding into a strided destination.
    RopeScatter {
        input: &'t Tensor,
        table: &'t Tensor,
        dst: &'t Tensor,
        desc: RopeDesc,
        scatter: RopeScatterDesc,
    },
    /// Strided copy between different tensors.
    CopyStrided { src: &'t Tensor, dst: &'t Tensor, desc: CopyDesc },
    /// Binary combination; `out` may be either input.
    Binary { a: &'t Tensor, b: &'t Tensor, out: &'t Tensor, op: BinaryOp },
    /// Decode attention. Plans as two dispatches that a barrier separates.
    AttnDecode {
        q: &'t Tensor,
        kt: &'t Tensor,
        v: &'t Tensor,
        scratch: &'t Tensor,
        out: &'t Tensor,
        desc: AttnDecodeDesc,
    },
    /// Causal attention over whole query blocks.
    FlashAttn {
        q: &'t Tensor,
        kt: &'t Tensor,
        v: &'t Tensor,
        out: &'t Tensor,
        desc: FlashAttentionDesc,
    },
    /// Prefill QKV pack.
    PrefillQkvPack {
        qkv: &'t Tensor,
        table: &'t Tensor,
        q: &'t Tensor,
        kt: &'t Tensor,
        v: &'t Tensor,
        desc: PrefillQkvPackDesc,
    },
    /// Greedy argmax into a host-readable cell.
    Argmax { input: &'t Tensor, result: &'t HostU32Buffer },
    /// Embedding row of the token in a cell.
    EmbedGather { token: &'t HostU32Buffer, table: &'t Tensor, out: &'t Tensor },
    /// Embedding rows of a list of tokens.
    EmbedGatherRows { tokens: &'t TokenIdBuffer, table: &'t Tensor, out: &'t Tensor },
    /// A chain of GEMVs in one dispatch.
    GemvChain { jobs: &'t [MatmulOp<'t>] },
}

/// A planned dispatch.
pub enum Planned {
    Matmul { dims: ResolvedMatmul, plan: OpPlan },
    Elementwise(ElementwiseDispatch),
    Chain(GemvChainPlan),
}

/// What a planned dispatch is.
pub enum PlannedView {
    Matmul { dims: ResolvedMatmul, plan: OpPlan },
    Elementwise(ElementwiseDispatch),
    Chain { jobs: Seq<GemvJob>, n_wg: u32 },
}

impl View for Planned {
    type V = PlannedView;

    open spec fn view(&self) -> PlannedView {
        match self {
            Planned::Matmul { dims, plan } => PlannedView::Matmul { dims: *dims, plan: *plan },
            Planned::Elementwise(dispatch) => PlannedView::Elementwise(*dispatch),
            Planned::Chain(chain) => PlannedView::Chain { jobs: chain.jobs@, n_wg: chain.n_wg },
        }
    }
}

/// A planned dispatch of a graph, and what it touches.
pub struct PlannedStep {
    /// Position of the operation that it carries out.
    pub op: usize,
    pub planned: Planned,
    pub access: Access,
}

/// A planned dispatch of a graph, and what it touches.
pub struct StepView {
    pub op: int,
    pub planned: PlannedView,
    pub access: AccessView,
}

impl View for PlannedStep {
    type V = StepView;

    open spec fn view(&self) -> StepView {
        StepView { op: self.op as int, planned: self.planned@, access: self.access@ }
    }
}

/// The steps of a planned graph.
pub open spec fn steps_of(steps: Seq<PlannedStep>) -> Seq<StepView> {
    Seq::new(steps.len(), |i: int| steps[i]@)
}

/// What each step touches.
pub open spec fn accesses_of(steps: Seq<StepView>) -> Seq<AccessView> {
    Seq::new(steps.len(), |i: int| steps[i].access)
}

/// The handle of a tensor's buffer.
pub open spec fn buf(t: &Tensor) -> u64 {
    t@.buffer.handle
}

/// What the first `upto` jobs of a chain touch.
pub open spec fn chain_access(jobs: Seq<MatmulOp>, upto: int) -> AccessView
    decreases upto,
{
    if upto <= 0 {
        no_access()
    } else {
        let op = jobs[upto - 1];
        let operands = chain_access(jobs, upto - 1).and_reads(buf(op.call.a)).and_reads(
            buf(op.call.b),
        ).and_writes(buf(op.call.c));
        let combined = match op.epilogue.d_of() {
            Some(d) => operands.and_reads(buf(d)),
            None => operands,
        };
        match op.normed_a {
            Some((weight, _)) => combined.and_reads(buf(weight)),
            None => combined,
        }
    }
}

/// A sum, held at the largest number.
pub open spec fn saturating_sum(a: int, b: int) -> int {
    if a + b > u64::MAX {
        u64::MAX as int
    } else {
        a + b
    }
}

/// The work of the first `upto` jobs of a chain.
pub open spec fn chain_flops(jobs: Seq<MatmulOp>, upto: int) -> int
    decreases upto,
{
    if upto <= 0 {
        0
    } else {
        saturating_sum(
            chain_flops(jobs, upto - 1),
            resolve_op(jobs[upto - 1])->Ok_0.total_flops as int,
        )
    }
}

/// One planned dispatch.
pub open spec fn one_step(
    dispatch: Result<ElementwiseDispatch, ErrorView>,
    op: int,
    access: AccessView,
) -> Result<(Seq<StepView>, int), ErrorView> {
    match dispatch {
        Err(e) => Err(e),
        Ok(d) => Ok((seq![StepView { op, planned: PlannedView::Elementwise(d), access }], 0)),
    }
}

/// The step of a matmul and its work.
pub open spec fn matmul_step(x: ExecutorView, op: MatmulOp, index: int) -> Result<
    (Seq<StepView>, int),
    ErrorView,
> {
    if let Err(e) = op_context_result(x.ctx, op) {
        Err(e)
    } else {
        match resolve_op(op) {
            Err(e) => Err(e),
            Ok(dims) => match matmul_plan(x.pipeline, dims, false) {
                Err(e) => Err(e),
                Ok(first) => {
                    let plan = demoted_plan(x.pipeline, op, dims, first);
                    let kernel = slot_kernel(plan.kernel);
                    if kernel.uses_descriptors {
                        Err(refused_name(Refusal::GraphDescriptors, kernel.name@))
                    } else {
                        Ok(
                            (
                                seq![
                                    StepView {
                                        op: index,
                                        planned: PlannedView::Matmul { dims, plan },
                                        access: op_access(op),
                                    },
                                ],
                                dims.total_flops as int,
                            ),
                        )
                    }
                },
            },
        }
    }
}

/// The step of a chain and its work.
pub open spec fn chain_step(x: ExecutorView, jobs: Seq<MatmulOp>, index: int) -> Result<
    (Seq<StepView>, int),
    ErrorView,
> {
    if jobs.len() == 0 || jobs.len() > GEMV_CHAIN_MAX_JOBS {
        Err(refused(Refusal::ChainCount { jobs: jobs.len() as usize }))
    } else {
        match chain_refusal(x.ctx, jobs) {
            Some(e) => Err(e),
            None => Ok(
                (
                    seq![
                        StepView {
                            op: index,
                            planned: PlannedView::Chain {
                                jobs: chain_jobs(jobs),
                                n_wg: chain_groups(chain_jobs(jobs)) as u32,
                            },
                            access: chain_access(jobs, jobs.len() as int),
                        },
                    ],
                    chain_flops(jobs, jobs.len() as int),
                ),
            ),
        }
    }
}

/// The steps of an operation and its work.
pub open spec fn op_steps(x: ExecutorView, op: ExecOp, index: int) -> Result<
    (Seq<StepView>, int),
    ErrorView,
> {
    let none = no_access();
    match op {
        ExecOp::Matmul(op) => matmul_step(x, op, index),
        ExecOp::RmsNorm { input, weight, output, eps } => one_step(
            norm_plan(x.ctx, OpName::RmsNorm, input@, weight@, None, output@, eps),
            index,
            none.and_reads(buf(input)).and_reads(buf(weight)).and_writes(buf(output)),
        ),
        ExecOp::LayerNorm { input, weight, bias, output, eps } => one_step(
            norm_plan(x.ctx, OpName::LayerNorm, input@, weight@, Some(bias@), output@, eps),
            index,
            none.and_reads(buf(input)).and_reads(buf(weight)).and_reads(buf(bias)).and_writes(
                buf(output),
            ),
        ),
        ExecOp::SoftmaxRows { input, output, scale, mask } => one_step(
            softmax_plan(x.ctx, input@, output@, scale, mask),
            index,
            none.and_reads(buf(input)).and_writes(buf(output)),
        ),
        ExecOp::Rope { input, table, output, desc } => one_step(
            rope_plan(x.ctx, input@, table@, output@, desc),
            index,
            none.and_reads(buf(input)).and_reads(buf(table)).and_writes(buf(output)),
        ),
        ExecOp::RopeScatter { input, table, dst, desc, scatter } => one_step(
            rope_scatter_plan(x.ctx, input@, table@, dst@, desc, scatter),
            index,
            none.and_reads(buf(input)).and_reads(buf(table)).and_writes(buf(dst)),
        ),
        ExecOp::CopyStrided { src, dst, desc } => one_step(
            copy_plan(x.ctx, src@, dst@, desc),
            index,
            none.and_reads(buf(src)).and_writes(buf(dst)),
        ),
        ExecOp::Binary { a, b, out, op } => one_step(
            binary_plan(x.ctx, a@, b@, out@, op),
            index,
            none.and_reads(buf(a)).and_reads(buf(b)).and_writes(buf(out)),
        ),
        ExecOp::FlashAttn { q, kt, v, out, desc } => one_step(
            flash_plan(x.ctx, q@, kt@, v@, out@, desc, false),
            index,
            none.and_reads(buf(q)).and_reads(buf(kt)).and_reads(buf(v)).and_writes(buf(out)),
        ),
        ExecOp::PrefillQkvPack { qkv, table, q, kt, v, desc } => one_step(
            pack_plan(x.ctx, qkv@, table@, q@, kt@, v@, desc),
            index,
            none.and_reads(buf(qkv)).and_reads(buf(table)).and_writes(buf(q)).and_writes(
                buf(kt),
            ).and_writes(buf(v)),
        ),
        ExecOp::Argmax { input, result } => one_step(
            argmax_plan(x.ctx, input@, result.backing()),
            index,
            none.and_reads(buf(input)).and_writes(result.backing().handle),
        ),
        ExecOp::EmbedGather { token, table, out } => one_step(
            gather_plan(x.ctx, token.backing(), table@, out@),
            index,
            none.and_reads(token.backing().handle).and_reads(buf(table)).and_writes(buf(out)),
        ),
        ExecOp::EmbedGatherRows { tokens, table, out } => one_step(
            gather_plan(x.ctx, tokens.backing(), table@, out@),
            index,
            none.and_reads(tokens.backing().handle).and_reads(buf(table)).and_writes(buf(out)),
        ),
        ExecOp::AttnDecode { q, kt, v, scratch, out, desc } => match attn_plan(
            x.ctx,
            attn_operands(q, kt, v, scratch, out),
            desc,
        ) {
            Err(e) => Err(e),
            Ok((stage1, combine)) => Ok(
                (
                    seq![
                        StepView {
                            op: index,
                            planned: PlannedView::Elementwise(stage1),
                            access: none.and_reads(buf(q)).and_reads(buf(kt)).and_reads(
                                buf(v),
                            ).and_writes(buf(scratch)),
                        },
                        StepView {
                            op: index,
                            planned: PlannedView::Elementwise(combine),
                            access: none.and_reads(buf(scratch)).and_writes(buf(out)),
                        },
                    ],
                    0,
                ),
            ),
        },
        ExecOp::GemvChain { jobs } => chain_step(x, jobs@, index),
    }
}

/// The steps of the first `upto` operations and their work, or the error of
/// the first that is refused.
pub open spec fn graph_steps(x: ExecutorView, ops: Seq<ExecOp>, upto: int) -> Result<
    (Seq<StepView>, int),
    ErrorView,
>
    decreases upto,
{
    if upto <= 0 {
        Ok((Seq::empty(), 0))
    } else {
        match graph_steps(x, ops, upto - 1) {
            Err(e) => Err(e),
            Ok((front, work)) => match op_steps(x, ops[upto - 1], upto - 1) {
                Err(e) => Err(e),
                Ok((steps, more)) => Ok((front + steps, saturating_sum(work, more))),
            },
        }
    }
}

proof fn lemma_steps_failure_stays(x: ExecutorView, ops: Seq<ExecOp>, i: int, j: int)
    requires
        i <= j,
    ensures
        graph_steps(x, ops, i) is Err ==> graph_steps(x, ops, j) == graph_steps(x, ops, i),
    decreases j - i,
{
    if i < j {
        lemma_steps_failure_stays(x, ops, i, j - 1);
    }
}

/// Whether a matmul that is not refused has a kernel.
pub open spec fn matmul_ready(x: ExecutorView, op: MatmulOp) -> bool {
    op_context_result(x.ctx, op) is Ok ==> (resolve_op(op) matches Ok(dims) ==> op_routes(
        x.pipeline,
        op,
        dims,
    ))
}

/// Whether an operation can be planned: its matmuls have a kernel to end in,
/// and its counts fit the numbers that the shaders take.
pub open spec fn op_ready(x: ExecutorView, op: ExecOp) -> bool {
    match op {
        ExecOp::Matmul(op) => matmul_ready(x, op),
        ExecOp::Rope { input, table, output, desc } => rope_fits(
            x.ctx,
            input@,
            table@,
            output@,
            desc,
        ),
        ExecOp::RopeScatter { input, table, dst, desc, scatter } => scatter_fits(
            x.ctx,
            input@,
            table@,
            dst@,
            desc,
            scatter,
        ),
        ExecOp::CopyStrided { src, dst, desc } => copy_fits(x.ctx, src@, dst@, desc),
        ExecOp::FlashAttn { q, kt, v, out, desc } => flash_fits(x.ctx, q@, kt@, v@, out@, desc),
        ExecOp::PrefillQkvPack { qkv, table, q, kt, v, desc } => pack_fits(
            x.ctx,
            qkv@,
            table@,
            q@,
            kt@,
            v@,
            desc,
        ),
        ExecOp::AttnDecode { q, kt, v, scratch, out, desc } => attn_fits(
            x.ctx,
            attn_operands(q, kt, v, scratch, out),
            desc,
        ),
        _ => true,
    }
}

/// Whether every operation of a graph that planning comes to can be planned.
/// It does not come to those behind a refused one.
pub open spec fn graph_ready(x: ExecutorView, ops: Seq<ExecOp>) -> bool {
    forall|i: int|
        0 <= i < ops.len() && graph_steps(x, ops, i) is Ok ==> #[trigger] op_ready(x, ops[i])
}

/// [`op_ready`], as a whole.
#[verifier::opaque]
spec fn may_plan(x: ExecutorView, op: ExecOp) -> bool {
    op_ready(x, op)
}

/// [`graph_steps`] succeeds, as a whole.
#[verifier::opaque]
spec fn reached(x: ExecutorView, ops: Seq<ExecOp>, i: int) -> bool {
    graph_steps(x, ops, i) is Ok
}

/// Planning came as far as an operation, and could plan all before it.
spec fn ready_before(x: ExecutorView, ops: Seq<ExecOp>, i: int) -> bool {
    &&& reached(x, ops, i)
    &&& forall|j: int| 0 <= j < i ==> may_plan(x, #[trigger] ops[j])
}

/// [`graph_ready`], to be taken one operation at a time.
spec fn promised(x: ExecutorView, ops: Seq<ExecOp>) -> bool {
    forall|i: int| 0 <= i < ops.len() && reached(x, ops, i) ==> may_plan(x, #[trigger] ops[i])
}

proof fn lemma_promised(x: ExecutorView, ops: Seq<ExecOp>)
    ensures
        promised(x, ops) == graph_ready(x, ops),
{
    reveal(may_plan);
    reveal(reached);
    if graph_ready(x, ops) {
        assert forall|i: int| 0 <= i < ops.len() && reached(x, ops, i) implies may_plan(
            x,
            #[trigger] ops[i],
        ) by {
            assert(op_ready(x, ops[i]));
        }
    }
    if promised(x, ops) {
        assert forall|i: int| 0 <= i < ops.len() && graph_steps(x, ops, i) is Ok implies #[trigger] op_ready(
            x,
            ops[i],
        ) by {
            assert(may_plan(x, ops[i]));
        }
    }
}

/// A graph that is planned up to an operation is refused there exactly where
/// the operation is.
proof fn lemma_next_step(x: ExecutorView, ops: Seq<ExecOp>, i: int)
    requires
        0 <= i,
        reached(x, ops, i),
    ensures
        reached(x, ops, i + 1) <==> op_steps(x, ops[i], i) is Ok,
{
    reveal(reached);
}

/// Planning comes to no operation behind a refused one.
proof fn lemma_not_reached(x: ExecutorView, ops: Seq<ExecOp>, i: int, j: int)
    requires
        i <= j,
        !reached(x, ops, i),
    ensures
        !reached(x, ops, j),
{
    reveal(reached);
    lemma_steps_failure_stays(x, ops, i, j);
}

/// Planning an operation settles what is known of its graph.
proof fn lemma_ready_settled(x: ExecutorView, ops: Seq<ExecOp>, i: int)
    requires
        0 <= i < ops.len(),
        ready_before(x, ops, i),
        may_plan(x, ops[i]),
    ensures
        !reached(x, ops, i + 1) ==> promised(x, ops),
        reached(x, ops, i + 1) ==> ready_before(x, ops, i + 1),
{
    if !reached(x, ops, i + 1) {
        assert forall|j: int| 0 <= j < ops.len() && reached(x, ops, j) implies may_plan(
            x,
            #[trigger] ops[j],
        ) by {
            if j > i {
                lemma_not_reached(x, ops, i + 1, j);
            }
        }
    }
}

/// The address of the position cell that a graph is prepared with, or 0.
pub open spec fn prepared_address(pos: Option<&PosBuffer>) -> u64 {
    match pos {
        Some(p) => p.backing().address,
        None => 0,
    }
}

/// A planned graph.
pub struct ExecPlan {
    pub steps: Vec<PlannedStep>,
    pub total_flops: u64,
}

/// One step of a recorded graph.
#[derive(Copy, Clone, Debug)]
pub enum ExecStep {
    Matmul(MatmulCommand),
    Elementwise(ElementwiseDispatch),
    /// The chain of the planned step with this position.
    Chain { step: usize },
}

/// One command of a recorded graph.
#[derive(Copy, Clone, Debug)]
pub struct ExecCommand {
    /// A full barrier precedes the step.
    pub barrier: bool,
    pub step: ExecStep,
}

/// The commands of the first `upto` steps and the pipeline that is bound
/// behind them. A dispatch other than a matmul binds a pipeline of its own.
pub open spec fn exec_commands(
    x: ExecutorView,
    ops: Seq<ExecOp>,
    steps: Seq<StepView>,
    upto: int,
) -> Result<(Seq<ExecCommand>, Option<PipelineId>), ErrorView>
    decreases upto,
{
    if upto <= 0 {
        Ok((Seq::empty(), None))
    } else {
        let i = upto - 1;
        let barrier = barrier_at(accesses_of(steps), i);
        match exec_commands(x, ops, steps, i) {
            Err(e) => Err(e),
            Ok((commands, bound)) => match steps[i].planned {
                PlannedView::Matmul { dims, plan } => match dispatch_result(
                    x.ctx,
                    ops[steps[i].op]->Matmul_0,
                    dims,
                    plan.kernel,
                ) {
                    Err(e) => Err(e),
                    Ok(dispatch) => Ok(
                        (
                            commands.push(
                                ExecCommand {
                                    barrier,
                                    step: ExecStep::Matmul(
                                        MatmulCommand {
                                            bind: bound != Some(dispatch.pipeline),
                                            dispatch,
                                        },
                                    ),
                                },
                            ),
                            Some(dispatch.pipeline),
                        ),
                    ),
                },
                PlannedView::Elementwise(d) => Ok(
                    (commands.push(ExecCommand { barrier, step: ExecStep::Elementwise(d) }), None),
                ),
                PlannedView::Chain { .. } => Ok(
                    (
                        commands.push(
                            ExecCommand { barrier, step: ExecStep::Chain { step: i as usize } },
                        ),
                        None,
                    ),
                ),
            },
        }
    }
}

proof fn lemma_commands_failure_stays(
    x: ExecutorView,
    ops: Seq<ExecOp>,
    steps: Seq<StepView>,
    i: int,
    j: int,
)
    requires
        i <= j,
    ensures
        exec_commands(x, ops, steps, i) is Err ==> exec_commands(x, ops, steps, j)
            == exec_commands(x, ops, steps, i),
    decreases j - i,
{
    if i < j {
        lemma_commands_failure_stays(x, ops, steps, i, j - 1);
    }
}

/// The position cell that an operation reads, or 0.
pub open spec fn pos_used(op: ExecOp) -> u64 {
    match op {
        ExecOp::Rope { desc, .. } => desc.pos_addr,
        ExecOp::RopeScatter { desc, .. } => desc.pos_addr,
        ExecOp::CopyStrided { desc, .. } => desc.pos_addr,
        ExecOp::AttnDecode { desc, .. } => desc.pos_addr,
        ExecOp::Matmul(op) => op.store.desc_of().pos_addr,
        _ => 0,
    }
}

/// The first of the first `upto` operations that reads another position cell
/// than the prepared one.
pub open spec fn pos_refusal(ops: Seq<ExecOp>, prepared: u64, upto: int) -> Option<ErrorView>
    decreases upto,
{
    if upto <= 0 {
        None
    } else {
        match pos_refusal(ops, prepared, upto - 1) {
            Some(e) => Some(e),
            None => {
                let used = pos_used(ops[upto - 1]);
                if used != 0 && used != prepared {
                    Some(refused(Refusal::PosMismatch { used, prepared }))
                } else {
                    None
                }
            },
        }
    }
}

proof fn lemma_pos_refusal_stays(ops: Seq<ExecOp>, prepared: u64, i: int, j: int)
    requires
        i <= j,
    ensures
        pos_refusal(ops, prepared, i) is Some ==> pos_refusal(ops, prepared, j) == pos_refusal(
            ops,
            prepared,
            i,
        ),
    decreases j - i,
{
    if i < j {
        lemma_pos_refusal_stays(ops, prepared, i, j - 1);
    }
}

/// The checks that come before a graph is planned.
pub open spec fn graph_entry(x: ExecutorView, ops: Seq<ExecOp>, entry: OpName) -> Option<ErrorView> {
    if ops.len() == 0 {
        Some(refused(Refusal::EmptyOpList { op: entry }))
    } else if !x.ctx.buffer_device_address_enabled {
        Some(refused(Refusal::CellNeedsAddresses { op: entry }))
    } else {
        None
    }
}

/// Whether planned steps and their work are those of a graph.
pub open spec fn plan_agrees(x: ExecutorView, ops: Seq<ExecOp>, plan: ExecPlan) -> bool {
    graph_steps(x, ops, ops.len() as int) == Ok::<(Seq<StepView>, int), ErrorView>(
        (steps_of(plan.steps@), plan.total_flops as int),
    )
}

/// Every matmul step of a planned graph belongs to a matmul and points at a
/// filled slot.
pub open spec fn steps_recordable(x: ExecutorView, ops: Seq<ExecOp>, steps: Seq<StepView>) -> bool {
    forall|i: int| #![trigger steps[i]]
        0 <= i < steps.len() ==> {
            &&& 0 <= steps[i].op < ops.len()
            &&& steps[i].planned matches PlannedView::Matmul { plan, .. } ==> ops[steps[i].op] is Matmul
                && plan_present(x.pipeline, plan)
        }
}

/// Refuses the first operation that reads another position cell than the
/// prepared one.
fn check_positions(ops: &[ExecOp<'_>], prepared: u64) -> (r: Result<(), Error>)
    ensures
        outcome(r) == (match pos_refusal(ops@, prepared, ops@.len() as int) {
            Some(e) => Err(e),
            None => Ok(()),
        }),
{
    let mut i: usize = 0;
    while i < ops.len()
        invariant
            i <= ops@.len(),
            pos_refusal(ops@, prepared, i as int) is None,
        decreases ops.len() - i,
    {
        proof {
            lemma_pos_refusal_stays(ops@, prepared, i + 1, ops@.len() as int);
        }
        let used: u64 = position_of(&ops[i]);
        if used != 0 && used != prepared {
            return Err(Error::new(Refusal::PosMismatch { used, prepared }));
        }
        i = i + 1;
    }
    Ok(())
}

fn add_saturating(a: u64, b: u64) -> (r: u64)
    ensures
        r == saturating_sum(a as int, b as int),
{
    match a.checked_add(b) {
        Some(sum) => sum,
        None => u64::MAX,
    }
}

fn chain_touches(jobs: &[MatmulOp<'_>]) -> (r: Access)
    ensures
        r@ == chain_access(jobs@, jobs@.len() as int),
{
    let mut access: Access = Access::new();
    let mut i: usize = 0;
    while i < jobs.len()
        invariant
            i <= jobs@.len(),
            access@ == chain_access(jobs@, i as int),
        decreases jobs.len() - i,
    {
        let op: &MatmulOp<'_> = &jobs[i];
        access = access.read(op.call.a).read(op.call.b).write(op.call.c);
        if let Some(d) = op.epilogue.d_tensor() {
            access = access.read(d);
        }
        if let Some((weight, _)) = op.normed_a {
            access = access.read(weight);
        }
        i = i + 1;
    }
    access
}

fn chain_work(jobs: &[MatmulOp<'_>]) -> (r: u64)
    requires
        forall|i: int| 0 <= i < jobs@.len() ==> resolve_op(#[trigger] jobs@[i]) is Ok,
    ensures
        r == chain_flops(jobs@, jobs@.len() as int),
{
    let mut work: u64 = 0;
    let mut i: usize = 0;
    while i < jobs.len()
        invariant
            i <= jobs@.len(),
            forall|i: int| 0 <= i < jobs@.len() ==> resolve_op(#[trigger] jobs@[i]) is Ok,
            work == chain_flops(jobs@, i as int),
        decreases jobs.len() - i,
    {
        assert(resolve_op(jobs@[i as int]) is Ok);
        if let Ok(dims) = ResolvedMatmul::from_op(&jobs[i]) {
            work = add_saturating(work, dims.total_flops);
        }
        i = i + 1;
    }
    work
}

/// One planned step, where its dispatch could be planned.
fn single(dispatch: Result<ElementwiseDispatch, Error>, op: usize, access: Access) -> (r: Result<
    (Vec<PlannedStep>, u64),
    Error,
>)
    ensures
        match one_step(outcome(dispatch), op as int, access@) {
            Ok((steps, work)) => r is Ok && steps_of((r->Ok_0).0@) == steps && (r->Ok_0).1 == work,
            Err(e) => r is Err && r->Err_0@ == e,
        },
{
    match dispatch {
        Ok(d) => {
            let mut steps: Vec<PlannedStep> = Vec::new();
            steps.push(PlannedStep { op, planned: Planned::Elementwise(d), access });
            assert(steps_of(steps@) =~= seq![
                StepView { op: op as int, planned: PlannedView::Elementwise(d), access: access@ },
            ]);
            Ok((steps, 0))
        }
        Err(e) => Err(e),
    }
}

/// The position cell that an operation reads, or 0.
fn position_of(op: &ExecOp<'_>) -> (r: u64)
    ensures
        r == pos_used(*op),
{
    match op {
        ExecOp::Rope { desc, .. } => desc.pos_addr,
        ExecOp::RopeScatter { desc, .. } => desc.pos_addr,
        ExecOp::CopyStrided { desc, .. } => desc.pos_addr,
        ExecOp::AttnDecode { desc, .. } => desc.pos_addr,
        ExecOp::Matmul(op) => op.store.desc().pos_addr,
        _ => 0,
    }
}

impl Executor {
    /// Whether an operation can be planned; see [`op_ready`].
    pub fn exec_op_ready(&self, op: &ExecOp<'_>) -> (r: bool)
        ensures
            r == op_ready(self@, *op),
    {
        match op {
            ExecOp::Matmul(op) => {
                if self.validate_op_context(op).is_err() {
                    return true;
                }
                match ResolvedMatmul::from_op(op) {
                    Ok(dims) => self.op_routes(op, &dims),
                    Err(_) => true,
                }
            }
            ExecOp::Rope { input, table, output, desc } => self.check_rope_fits(
                input,
                table,
                output,
                *desc,
            ),
            ExecOp::RopeScatter { input, table, dst, desc, scatter } => self.check_scatter_fits(
                input,
                table,
                dst,
                *desc,
                *scatter,
            ),
            ExecOp::CopyStrided { src, dst, desc } => self.check_copy_fits(src, dst, *desc),
            ExecOp::FlashAttn { q, kt, v, out, desc } => self.check_flash_fits(
                q,
                kt,
                v,
                out,
                *desc,
            ),
            ExecOp::PrefillQkvPack { qkv, table, q, kt, v, desc } => self.check_pack_fits(
                qkv,
                table,
                q,
                kt,
                v,
                *desc,
            ),
            ExecOp::AttnDecode { q, kt, v, scratch, out, desc } => self.check_attn_fits(
                q,
                kt,
                v,
                scratch,
                out,
                *desc,
            ),
            _ => true,
        }
    }

    fn plan_matmul_step(&self, op: &MatmulOp<'_>, index: usize) -> (r: Result<
        (Vec<PlannedStep>, u64),
        Error,
    >)
        requires
            matmul_ready(self@, *op),
        ensures
            match matmul_step(self@, *op, index as int) {
                Ok((steps, work)) => r is Ok && steps_of((r->Ok_0).0@) == steps && (r->Ok_0).1
                    == work && (steps[0].planned matches PlannedView::Matmul { plan, .. }
                    && plan_present(self@.pipeline, plan)),
                Err(e) => r is Err && r->Err_0@ == e,
            },
    {
        if let Err(e) = self.validate_op_context(op) {
            return Err(e);
        }
        let dims: ResolvedMatmul = match ResolvedMatmul::from_op(op) {
            Ok(dims) => dims,
            Err(e) => return Err(e),
        };
        let first: OpPlan = match self.plan_matmul(&dims, false) {
            Ok(plan) => plan,
            Err(e) => return Err(e),
        };
        let plan: OpPlan = self.demote_for_op(op, &dims, first);
        let kernel: KernelSpec = self.pipeline().kernel_at(plan.kernel);
        if kernel.uses_descriptors {
            return Err(Error::with_name(Refusal::GraphDescriptors, kernel.name));
        }
        let mut steps: Vec<PlannedStep> = Vec::new();
        steps.push(
            PlannedStep { op: index, planned: Planned::Matmul { dims, plan }, access: access_of(op) },
        );
        assert(steps_of(steps@) =~= seq![
            StepView {
                op: index as int,
                planned: PlannedView::Matmul { dims, plan },
                access: op_access(*op),
            },
        ]);
        Ok((steps, dims.total_flops))
    }

    fn plan_chain_step(&self, jobs: &[MatmulOp<'_>], index: usize) -> (r: Result<
        (Vec<PlannedStep>, u64),
        Error,
    >)
        ensures
            match chain_step(self@, jobs@, index as int) {
                Ok((steps, work)) => r is Ok && steps_of((r->Ok_0).0@) == steps && (r->Ok_0).1
                    == work,
                Err(e) => r is Err && r->Err_0@ == e,
            },
    {
        if jobs.len() == 0 || jobs.len() > GEMV_CHAIN_MAX_JOBS {
            return Err(Error::new(Refusal::ChainCount { jobs: jobs.len() }));
        }
        let chain: GemvChainPlan = match self.plan_gemv_chain(jobs) {
            Ok(chain) => chain,
            Err(e) => return Err(e),
        };
        proof {
            crate::executor::elementwise::gemv_chain::lemma_jobs_resolve(self@.ctx, jobs@);
        }
        let work: u64 = chain_work(jobs);
        let access: Access = chain_touches(jobs);
        let ghost step = StepView {
            op: index as int,
            planned: PlannedView::Chain { jobs: chain.jobs@, n_wg: chain.n_wg },
            access: access@,
        };
        let mut steps: Vec<PlannedStep> = Vec::new();
        steps.push(PlannedStep { op: index, planned: Planned::Chain(chain), access });
        assert(steps_of(steps@) =~= seq![step]);
        Ok((steps, work))
    }

    fn plan_attn_steps(
        &self,
        q: &Tensor,
        kt: &Tensor,
        v: &Tensor,
        scratch: &Tensor,
        out: &Tensor,
        desc: AttnDecodeDesc,
        index: usize,
    ) -> (r: Result<(Vec<PlannedStep>, u64), Error>)
        requires
            attn_fits(self@.ctx, attn_operands(q, kt, v, scratch, out), desc),
        ensures
            match op_steps(
                self@,
                (ExecOp::AttnDecode { q, kt, v, scratch, out, desc }),
                index as int,
            ) {
                Ok((steps, work)) => r is Ok && steps_of((r->Ok_0).0@) == steps && (r->Ok_0).1
                    == work,
                Err(e) => r is Err && r->Err_0@ == e,
            },
    {
        let (stage1, combine): (ElementwiseDispatch, ElementwiseDispatch) =
            match self.plan_attn_decode(q, kt, v, scratch, out, desc) {
            Ok(both) => both,
            Err(e) => return Err(e),
        };
        let mut steps: Vec<PlannedStep> = Vec::new();
        steps.push(
            PlannedStep {
                op: index,
                planned: Planned::Elementwise(stage1),
                access: Access::new().read(q).read(kt).read(v).write(scratch),
            },
        );
        steps.push(
            PlannedStep {
                op: index,
                planned: Planned::Elementwise(combine),
                access: Access::new().read(scratch).write(out),
            },
        );
        assert(steps_of(steps@) =~= seq![steps@[0]@, steps@[1]@]);
        Ok((steps, 0))
    }

    /// Plans one operation.
    pub fn plan_exec_op(&self, op: &ExecOp<'_>, index: usize) -> (r: Result<
        (Vec<PlannedStep>, u64),
        Error,
    >)
        requires
            op_ready(self@, *op),
        ensures
            match op_steps(self@, *op, index as int) {
                Ok((steps, work)) => r is Ok && steps_of((r->Ok_0).0@) == steps && (r->Ok_0).1
                    == work,
                Err(e) => r is Err && r->Err_0@ == e,
            },
            r is Ok && *op is Matmul ==> ((op_steps(self@, *op, index as int)->Ok_0).0[0].planned
                matches PlannedView::Matmul { plan, .. } && plan_present(self@.pipeline, plan)),
    {
        match op {
            ExecOp::Matmul(op) => self.plan_matmul_step(op, index),
            ExecOp::RmsNorm { input, weight, output, eps } => single(
                self.plan_norm(OpName::RmsNorm, input, weight, None, output, *eps),
                index,
                Access::new().read(input).read(weight).write(output),
            ),
            ExecOp::LayerNorm { input, weight, bias, output, eps } => single(
                self.plan_norm(OpName::LayerNorm, input, weight, Some(*bias), output, *eps),
                index,
                Access::new().read(input).read(weight).read(bias).write(output),
            ),
            ExecOp::SoftmaxRows { input, output, scale, mask } => single(
                self.plan_softmax_rows(input, output, *scale, *mask),
                index,
                Access::new().read(input).write(output),
            ),
            ExecOp::Rope { input, table, output, desc } => single(
                self.plan_rope(input, table, output, *desc),
                index,
                Access::new().read(input).read(table).write(output),
            ),
            ExecOp::RopeScatter { input, table, dst, desc, scatter } => single(
                self.plan_rope_scatter(input, table, dst, *desc, *scatter),
                index,
                Access::new().read(input).read(table).write(dst),
            ),
            ExecOp::CopyStrided { src, dst, desc } => single(
                self.plan_copy_strided(src, dst, *desc),
                index,
                Access::new().read(src).write(dst),
            ),
            ExecOp::Binary { a, b, out, op } => single(
                self.plan_binary(a, b, out, *op),
                index,
                Access::new().read(a).read(b).write(out),
            ),
            ExecOp::FlashAttn { q, kt, v, out, desc } => single(
                self.plan_flash_attention(q, kt, v, out, *desc, false),
                index,
                Access::new().read(q).read(kt).read(v).write(out),
            ),
            ExecOp::PrefillQkvPack { qkv, table, q, kt, v, desc } => single(
                self.plan_prefill_qkv_pack(qkv, table, q, kt, v, *desc),
                index,
                Access::new().read(qkv).read(table).write(q).write(kt).write(v),
            ),
            ExecOp::Argmax { input, result } => single(
                self.plan_argmax(input, result),
                index,
                Access::new().read(input).write_raw(result.buffer().handle),
            ),
            ExecOp::EmbedGather { token, table, out } => single(
                self.plan_embed_gather(token.buffer(), table, out),
                index,
                Access::new().read_raw(token.buffer().handle).read(table).write(out),
            ),
            ExecOp::EmbedGatherRows { tokens, table, out } => single(
                self.plan_embed_gather(tokens.buffer(), table, out),
                index,
                Access::new().read_raw(tokens.buffer().handle).read(table).write(out),
            ),
            ExecOp::AttnDecode { q, kt, v, scratch, out, desc } => self.plan_attn_steps(
                q,
                kt,
                v,
                scratch,
                out,
                *desc,
                index,
            ),
            ExecOp::GemvChain { jobs } => self.plan_chain_step(jobs, index),
        }
    }

    /// Whether an operation can be planned.
    fn may_plan(&self, op: &ExecOp<'_>) -> (r: bool)
        ensures
            r == may_plan(self@, *op),
    {
        reveal(may_plan);
        self.exec_op_ready(op)
    }

    /// Whether planning goes on behind an operation.
    fn reaches_next(&self, ops: &[ExecOp<'_>], i: usize) -> (r: bool)
        requires
            i < ops@.len(),
            reached(self@, ops@, i as int),
            may_plan(self@, ops@[i as int]),
        ensures
            r == reached(self@, ops@, i + 1),
    {
        proof {
            assert(op_ready(self@, ops@[i as int])) by {
                reveal(may_plan);
            }
            lemma_next_step(self@, ops@, i as int);
        }
        self.plan_exec_op(&ops[i], i).is_ok()
    }

    /// Decides [`graph_ready`], planning the operations in turn.
    pub fn exec_ops_ready(&self, ops: &[ExecOp<'_>]) -> (r: bool)
        ensures
            r == graph_ready(self@, ops@),
    {
        let mut i: usize = 0;
        proof {
            lemma_promised(self@, ops@);
            reveal(reached);
        }
        while i < ops.len()
            invariant
                i <= ops@.len(),
                promised(self@, ops@) == graph_ready(self@, ops@),
                ready_before(self@, ops@, i as int),
            decreases ops.len() - i,
        {
            if !self.may_plan(&ops[i]) {
                assert(!promised(self@, ops@)) by {
                    assert(!may_plan(self@, ops@[i as int]));
                }
                return false;
            }
            proof {
                lemma_ready_settled(self@, ops@, i as int);
            }
            if !self.reaches_next(ops, i) {
                return true;
            }
            i = i + 1;
        }
        true
    }

    /// Whether a graph that is not refused at `entry` can be planned as far
    /// as planning comes.
    pub fn check_graph_ready(&self, ops: &[ExecOp<'_>], entry: OpName) -> (r: bool)
        ensures
            r == (graph_entry(self@, ops@, entry) is None ==> graph_ready(self@, ops@)),
    {
        ops.len() == 0 || !self.context().buffer_device_address_enabled || self.exec_ops_ready(ops)
    }

    /// Whether a graph that is not refused before it is planned can be
    /// prepared with `pos`.
    pub fn check_prepare_ready(&self, ops: &[ExecOp<'_>], pos: Option<&PosBuffer>) -> (r: bool)
        ensures
            r == (graph_entry(self@, ops@, OpName::PrepareExecOps) is None && pos_refusal(
                ops@,
                prepared_address(pos),
                ops@.len() as int,
            ) is None ==> graph_ready(self@, ops@)),
    {
        let prepared: u64 = match pos {
            Some(p) => p.device_address(),
            None => 0,
        };
        check_positions(ops, prepared).is_err() || self.check_graph_ready(
            ops,
            OpName::PrepareExecOps,
        )
    }

    /// Checks and plans every operation of a graph. Nothing is recorded where
    /// one of them is refused.
    pub fn plan_exec_ops(&self, ops: &[ExecOp<'_>]) -> (r: Result<ExecPlan, Error>)
        requires
            graph_ready(self@, ops@),
        ensures
            match graph_steps(self@, ops@, ops@.len() as int) {
                Ok(_) => r is Ok && plan_agrees(self@, ops@, r->Ok_0) && steps_recordable(
                    self@,
                    ops@,
                    steps_of(r->Ok_0.steps@),
                ),
                Err(e) => r is Err && r->Err_0@ == e,
            },
    {
        let mut steps: Vec<PlannedStep> = Vec::new();
        let mut total: u64 = 0;
        let mut i: usize = 0;
        assert(steps_of(steps@) =~= Seq::empty());
        proof {
            lemma_promised(self@, ops@);
        }
        while i < ops.len()
            invariant
                i <= ops@.len(),
                promised(self@, ops@),
                graph_steps(self@, ops@, i as int) == Ok::<(Seq<StepView>, int), ErrorView>(
                    (steps_of(steps@), total as int),
                ),
                steps_recordable(self@, ops@, steps_of(steps@)),
            decreases ops.len() - i,
        {
            proof {
                lemma_steps_failure_stays(self@, ops@, i + 1, ops@.len() as int);
                assert(op_ready(self@, ops@[i as int])) by {
                    reveal(reached);
                    reveal(may_plan);
                    assert(may_plan(self@, ops@[i as int]));
                }
            }
            let (more, work): (Vec<PlannedStep>, u64) = match self.plan_exec_op(&ops[i], i) {
                Ok(planned) => planned,
                Err(e) => return Err(e),
            };
            let ghost before = steps_of(steps@);
            let ghost added = steps_of(more@);
            let mut rest: Vec<PlannedStep> = more;
            steps.append(&mut rest);
            total = add_saturating(total, work);
            proof {
                let all = steps_of(steps@);
                assert(all =~= before + added);
                lemma_op_steps(self@, ops@, i as int);
                assert forall|j: int| #![trigger all[j]] 0 <= j < all.len() implies {
                    &&& 0 <= all[j].op < ops@.len()
                    &&& all[j].planned matches PlannedView::Matmul { plan, .. } ==> ops@[all[j].op] is Matmul
                        && plan_present(self@.pipeline, plan)
                } by {
                    if j < before.len() {
                        assert(all[j] == before[j]);
                    } else {
                        let k = j - before.len();
                        assert(all[j] == added[k]);
                    }
                }
            }
            i = i + 1;
        }
        Ok(ExecPlan { steps, total_flops: total })
    }

    /// The commands of a planned graph, with a barrier before each step that
    /// has to wait.
    pub fn record_exec_ops(&self, ops: &[ExecOp<'_>], plan: &ExecPlan) -> (r: Result<
        Vec<ExecCommand>,
        Error,
    >)
        requires
            steps_recordable(self@, ops@, steps_of(plan.steps@)),
        ensures
            match exec_commands(
                self@,
                ops@,
                steps_of(plan.steps@),
                plan.steps@.len() as int,
            ) {
                Ok((commands, _)) => r is Ok && r->Ok_0@ == commands,
                Err(e) => r is Err && r->Err_0@ == e,
            },
    {
        let ghost steps = steps_of(plan.steps@);
        let ghost accesses = accesses_of(steps);
        let mut commands: Vec<ExecCommand> = Vec::new();
        let mut bound: Option<PipelineId> = None;
        let mut cursor: HazardCursor = HazardCursor::new();
        let mut i: usize = 0;
        assert(accesses.take(0) =~= Seq::empty());
        while i < plan.steps.len()
            invariant
                i <= plan.steps@.len(),
                steps == steps_of(plan.steps@),
                accesses == accesses_of(steps),
                steps_recordable(self@, ops@, steps),
                cursor@ == pending_after(accesses.take(i as int)),
                exec_commands(self@, ops@, steps, i as int) == Ok::<
                    (Seq<ExecCommand>, Option<PipelineId>),
                    ErrorView,
                >((commands@, bound)),
            decreases plan.steps.len() - i,
        {
            let step: &PlannedStep = &plan.steps[i];
            proof {
                let next = accesses.take(i + 1);
                assert(next.drop_last() =~= accesses.take(i as int));
                assert(next.last() == accesses[i as int]);
                assert(steps[i as int] == plan.steps@[i as int]@);
                assert(accesses[i as int] == step.access@);
                lemma_commands_failure_stays(
                    self@,
                    ops@,
                    steps,
                    i + 1,
                    plan.steps@.len() as int,
                );
            }
            let barrier: bool = cursor.barrier_before(&step.access);
            match &step.planned {
                Planned::Matmul { dims, plan: route } => {
                    match &ops[step.op] {
                        ExecOp::Matmul(op) => {
                            match self.record_one_matmul(op, dims, route.kernel, &mut bound) {
                                Ok(command) => {
                                    commands.push(
                                        ExecCommand { barrier, step: ExecStep::Matmul(command) },
                                    );
                                }
                                Err(e) => return Err(e),
                            }
                        }
                        _ => {}
                    }
                }
                Planned::Elementwise(dispatch) => {
                    commands.push(ExecCommand { barrier, step: ExecStep::Elementwise(*dispatch) });
                    bound = None;
                }
                Planned::Chain(_) => {
                    commands.push(ExecCommand { barrier, step: ExecStep::Chain { step: i } });
                    bound = None;
                }
            }
            i = i + 1;
        }
        Ok(commands)
    }

    /// Plans a graph for one submission.
    pub fn plan_run_exec_ops(&self, ops: &[ExecOp<'_>]) -> (r: Result<ExecPlan, Error>)
        requires
            graph_entry(self@, ops@, OpName::RunExecOps) is None ==> graph_ready(self@, ops@),
        ensures
            match graph_entry(self@, ops@, OpName::RunExecOps) {
                Some(e) => r is Err && r->Err_0@ == e,
                None => match graph_steps(self@, ops@, ops@.len() as int) {
                    Ok(_) => r is Ok && plan_agrees(self@, ops@, r->Ok_0) && steps_recordable(
                        self@,
                        ops@,
                        steps_of(r->Ok_0.steps@),
                    ),
                    Err(e) => r is Err && r->Err_0@ == e,
                },
            },
    {
        if ops.len() == 0 {
            return Err(Error::new(Refusal::EmptyOpList { op: OpName::RunExecOps }));
        }
        if !self.context().buffer_device_address_enabled {
            return Err(Error::new(Refusal::CellNeedsAddresses { op: OpName::RunExecOps }));
        }
        self.plan_exec_ops(ops)
    }

    /// Plans a graph for repeated replay. Every position cell that it reads
    /// has to be the prepared one.
    pub fn plan_prepare_exec_ops(&self, ops: &[ExecOp<'_>], pos: Option<&PosBuffer>) -> (r: Result<
        ExecPlan,
        Error,
    >)
        requires
            graph_entry(self@, ops@, OpName::PrepareExecOps) is None && pos_refusal(
                ops@,
                prepared_address(pos),
                ops@.len() as int,
            ) is None ==> graph_ready(self@, ops@),
        ensures
            match graph_entry(self@, ops@, OpName::PrepareExecOps) {
                Some(e) => r is Err && r->Err_0@ == e,
                None => match pos_refusal(ops@, prepared_address(pos), ops@.len() as int) {
                    Some(e) => r is Err && r->Err_0@ == e,
                    None => match graph_steps(self@, ops@, ops@.len() as int) {
                        Ok(_) => r is Ok && plan_agrees(self@, ops@, r->Ok_0) && steps_recordable(
                            self@,
                            ops@,
                            steps_of(r->Ok_0.steps@),
                        ),
                        Err(e) => r is Err && r->Err_0@ == e,
                    },
                },
            },
    {
        if ops.len() == 0 {
            return Err(Error::new(Refusal::EmptyOpList { op: OpName::PrepareExecOps }));
        }
        if !self.context().buffer_device_address_enabled {
            return Err(Error::new(Refusal::CellNeedsAddresses { op: OpName::PrepareExecOps }));
        }
        let prepared: u64 = match pos {
            Some(p) => p.device_address(),
            None => 0,
        };
        if let Err(e) = check_positions(ops, prepared) {
            return Err(e);
        }
        self.plan_exec_ops(ops)
    }

    /// Plans a graph without running it, and counts its dispatches and the
    /// barriers that recording it would put between them.
    pub fn exec_ops_barrier_count(&self, ops: &[ExecOp<'_>]) -> (r: Result<(usize, usize), Error>)
        requires
            graph_entry(self@, ops@, OpName::ExecOpsBarrierCount) is None ==> graph_ready(
                self@,
                ops@,
            ),
        ensures
            match graph_entry(self@, ops@, OpName::ExecOpsBarrierCount) {
                Some(e) => r is Err && r->Err_0@ == e,
                None => match graph_steps(self@, ops@, ops@.len() as int) {
                    Ok((steps, _)) => r is Ok && (r->Ok_0).0 == steps.len() && (r->Ok_0).1
                        == barrier_count(accesses_of(steps), steps.len() as int),
                    Err(e) => r is Err && r->Err_0@ == e,
                },
            },
    {
        if ops.len() == 0 {
            return Err(Error::new(Refusal::EmptyOpList { op: OpName::ExecOpsBarrierCount }));
        }
        if !self.context().buffer_device_address_enabled {
            return Err(
                Error::new(Refusal::CellNeedsAddresses { op: OpName::ExecOpsBarrierCount }),
            );
        }
        let plan: ExecPlan = match self.plan_exec_ops(ops) {
            Ok(plan) => plan,
            Err(e) => return Err(e),
        };
        let ghost accesses = accesses_of(steps_of(plan.steps@));
        let mut cursor: HazardCursor = HazardCursor::new();
        let mut barriers: usize = 0;
        let mut i: usize = 0;
        assert(accesses.take(0) =~= Seq::empty());
        while i < plan.steps.len()
            invariant
                i <= plan.steps@.len(),
                barriers <= i,
                accesses == accesses_of(steps_of(plan.steps@)),
                cursor@ == pending_after(accesses.take(i as int)),
                barriers == barrier_count(accesses, i as int),
            decreases plan.steps.len() - i,
        {
            proof {
                let next = accesses.take(i + 1);
                assert(next.drop_last() =~= accesses.take(i as int));
                assert(next.last() == accesses[i as int]);
                assert(accesses[i as int] == plan.steps@[i as int].access@);
            }
            if cursor.barrier_before(&plan.steps[i].access) {
                barriers = barriers + 1;
            }
            i = i + 1;
        }
        Ok((plan.steps.len(), barriers))
    }
}

/// The steps of an operation name it, and only a matmul has a matmul step.
proof fn lemma_op_steps(x: ExecutorView, ops: Seq<ExecOp>, i: int)
    requires
        0 <= i < ops.len(),
        op_steps(x, ops[i], i) is Ok,
    ensures
        ({
            let steps = (op_steps(x, ops[i], i)->Ok_0).0;
            &&& 1 <= steps.len() <= 2
            &&& forall|k: int| #![trigger steps[k]]
                0 <= k < steps.len() ==> steps[k].op == i && (steps[k].planned is Matmul
                    ==> ops[i] is Matmul && k == 0)
            &&& ops[i] is Matmul ==> steps.len() == 1
        }),
{
}

/// The commands of a recorded graph carry a barrier exactly where one is
/// owed, so that the count of a graph's barriers is that of its recording.
pub proof fn recorded_barriers_match_count(
    x: ExecutorView,
    ops: Seq<ExecOp>,
    steps: Seq<StepView>,
    upto: int,
)
    requires
        0 <= upto <= steps.len(),
        exec_commands(x, ops, steps, upto) is Ok,
    ensures
        ({
            let commands = (exec_commands(x, ops, steps, upto)->Ok_0).0;
            &&& commands.len() == upto
            &&& forall|i: int| 0 <= i < upto ==> (#[trigger] commands[i]).barrier == barrier_at(
                accesses_of(steps),
                i,
            )
            &&& commands_with_barrier(commands, upto) == barrier_count(accesses_of(steps), upto)
        }),
    decreases upto,
{
    if upto > 0 {
        recorded_barriers_match_count(x, ops, steps, upto - 1);
        let before = (exec_commands(x, ops, steps, upto - 1)->Ok_0).0;
        let commands = (exec_commands(x, ops, steps, upto)->Ok_0).0;
        assert(commands.drop_last() =~= before);
        lemma_prefix_count(before, commands, upto - 1);
    }
}

/// How many of the first `upto` commands a barrier precedes.
pub open spec fn commands_with_barrier(commands: Seq<ExecCommand>, upto: int) -> nat
    decreases upto,
{
    if upto <= 0 {
        0
    } else {
        commands_with_barrier(commands, upto - 1) + (if commands[upto - 1].barrier {
            1nat
        } else {
            0
        })
    }
}

proof fn lemma_prefix_count(a: Seq<ExecCommand>, b: Seq<ExecCommand>, upto: int)
    requires
        upto <= a.len() <= b.len(),
        forall|i: int| 0 <= i < a.len() ==> a[i] == b[i],
    ensures
        commands_with_barrier(a, upto) == commands_with_barrier(b, upto),
    decreases upto,
{
    if upto > 0 {
        lemma_prefix_count(a, b, upto - 1);
    }
}

/// The two stages of a decode attention are never recorded without a barrier
/// between them.
pub proof fn attention_stages_are_separated(
    x: ExecutorView,
    ops: Seq<ExecOp>,
    steps: Seq<StepView>,
    i: int,
    scratch: u64,
)
    requires
        0 <= i,
        i + 1 < steps.len(),
        steps[i].access.writes.contains(scratch),
        steps[i + 1].access.reads.contains(scratch),
        exec_commands(x, ops, steps, steps.len() as int) is Ok,
    ensures
        (exec_commands(x, ops, steps, steps.len() as int)->Ok_0).0[i + 1].barrier,
{
    let accesses = accesses_of(steps);
    assert(accesses[i] == steps[i].access && accesses[i + 1] == steps[i + 1].access);
    assert(accesses[i + 1].conflicts(accesses[i]));
    crate::executor::hazard::conflicting_dispatches_are_separated(accesses, i, i + 1);
    recorded_barriers_match_count(x, ops, steps, steps.len() as int);
}

} // verus!
