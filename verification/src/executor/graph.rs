//! Recording of whole batches: independent operations back to back, and
//! dependent ones with barriers where they are owed.

use crate::error::{Error, ErrorView};
use crate::executor::hazard::{
    access_of, barrier_at, no_access, op_access, pending_after, Access, AccessView, HazardCursor,
};
use crate::executor::plan::{plan_present, Executor, ExecutorView, OpPlan};
use crate::executor::recording::{dispatch_result, MatmulCommand};
use crate::executor::splitk2::{
    record_split_k2_commands, split_commands, SplitK2Commands, SplitK2Dispatch,
};
use crate::matmul::api::MatmulOp;
use crate::matmul::resolution::ResolvedMatmul;
use crate::pipeline::registry::PipelineId;
use vstd::prelude::*;

verus! {

/// The commands of the first `upto` operations and the pipeline that is
/// bound behind them, or the error of the first that cannot be recorded. A
/// pipeline is bound only where it differs from the one before.
pub open spec fn batch_commands(
    x: ExecutorView,
    ops: Seq<MatmulOp>,
    resolved: Seq<ResolvedMatmul>,
    plans: Seq<OpPlan>,
    upto: int,
) -> Result<(Seq<MatmulCommand>, Option<PipelineId>), ErrorView>
    decreases upto,
{
    if upto <= 0 {
        Ok((Seq::empty(), None))
    } else {
        match batch_commands(x, ops, resolved, plans, upto - 1) {
            Err(e) => Err(e),
            Ok((commands, bound)) => match dispatch_result(
                x.ctx,
                ops[upto - 1],
                resolved[upto - 1],
                plans[upto - 1].kernel,
            ) {
                Err(e) => Err(e),
                Ok(dispatch) => Ok(
                    (
                        commands.push(
                            MatmulCommand { bind: bound != Some(dispatch.pipeline), dispatch },
                        ),
                        Some(dispatch.pipeline),
                    ),
                ),
            },
        }
    }
}

proof fn lemma_batch_failure_stays(
    x: ExecutorView,
    ops: Seq<MatmulOp>,
    resolved: Seq<ResolvedMatmul>,
    plans: Seq<OpPlan>,
    i: int,
    j: int,
)
    requires
        i <= j,
    ensures
        batch_commands(x, ops, resolved, plans, i) is Err ==> batch_commands(
            x,
            ops,
            resolved,
            plans,
            j,
        ) == batch_commands(x, ops, resolved, plans, i),
    decreases j - i,
{
    if i < j {
        lemma_batch_failure_stays(x, ops, resolved, plans, i, j - 1);
    }
}

/// One step of a recorded graph.
#[derive(Copy, Clone, Debug, PartialEq, Eq, Structural)]
pub enum GraphStep {
    Matmul(MatmulCommand),
    /// Both stages of split-K, with a full barrier between them.
    SplitK2(SplitK2Commands),
}

/// One command of a recorded graph.
#[derive(Copy, Clone, Debug, PartialEq, Eq, Structural)]
pub struct GraphCommand {
    /// A full barrier precedes the step.
    pub barrier: bool,
    pub step: GraphStep,
}

/// A planned split and where its scratch lies; none for a plain dispatch.
pub type SplitSlot = Option<(SplitK2Dispatch, u64)>;

/// What a graph operation touches. A split reads only A and B before its own
/// barrier, and writes C behind it.
pub open spec fn graph_access(op: MatmulOp, split: SplitSlot) -> AccessView {
    if split is Some {
        AccessView {
            flushes: true,
            ..no_access().and_reads(op.call.a@.buffer.handle).and_reads(
                op.call.b@.buffer.handle,
            ).and_writes(op.call.c@.buffer.handle)
        }
    } else {
        op_access(op)
    }
}

/// What the operations of a graph touch.
pub open spec fn graph_accesses(ops: Seq<MatmulOp>, splits: Seq<SplitSlot>) -> Seq<AccessView> {
    Seq::new(ops.len(), |i: int| graph_access(ops[i], splits[i]))
}

/// The commands of the first `upto` operations of a graph and the pipeline
/// that is bound behind them. A split binds pipelines of its own.
pub open spec fn graph_commands(
    x: ExecutorView,
    ops: Seq<MatmulOp>,
    resolved: Seq<ResolvedMatmul>,
    plans: Seq<OpPlan>,
    splits: Seq<SplitSlot>,
    scratch: u64,
    upto: int,
) -> Result<(Seq<GraphCommand>, Option<PipelineId>), ErrorView>
    decreases upto,
{
    if upto <= 0 {
        Ok((Seq::empty(), None))
    } else {
        let i = upto - 1;
        let barrier = barrier_at(graph_accesses(ops, splits), i);
        let call = ops[i].call;
        match graph_commands(x, ops, resolved, plans, splits, scratch, i) {
            Err(e) => Err(e),
            Ok((commands, bound)) => match splits[i] {
                Some((plan, offset)) => {
                    let step = GraphStep::SplitK2(
                        split_commands(
                            call.alpha,
                            resolved[i],
                            plan,
                            call.a@.buffer.address,
                            call.b@.buffer.address,
                            call.c@.buffer.address,
                            (scratch + offset) as u64,
                        ),
                    );
                    Ok((commands.push(GraphCommand { barrier, step }), None))
                },
                None => match dispatch_result(x.ctx, ops[i], resolved[i], plans[i].kernel) {
                    Err(e) => Err(e),
                    Ok(dispatch) => {
                        let step = GraphStep::Matmul(
                            MatmulCommand { bind: bound != Some(dispatch.pipeline), dispatch },
                        );
                        Ok((commands.push(GraphCommand { barrier, step }), Some(dispatch.pipeline)))
                    },
                },
            },
        }
    }
}

proof fn lemma_graph_failure_stays(
    x: ExecutorView,
    ops: Seq<MatmulOp>,
    resolved: Seq<ResolvedMatmul>,
    plans: Seq<OpPlan>,
    splits: Seq<SplitSlot>,
    scratch: u64,
    i: int,
    j: int,
)
    requires
        i <= j,
    ensures
        graph_commands(x, ops, resolved, plans, splits, scratch, i) is Err ==> graph_commands(
            x,
            ops,
            resolved,
            plans,
            splits,
            scratch,
            j,
        ) == graph_commands(x, ops, resolved, plans, splits, scratch, i),
    decreases j - i,
{
    if i < j {
        lemma_graph_failure_stays(x, ops, resolved, plans, splits, scratch, i, j - 1);
    }
}

/// Splits that a graph can record: usable counts, and scratch addresses that
/// do not wrap.
pub open spec fn splits_addressable(splits: Seq<SplitSlot>, scratch: u64) -> bool {
    forall|i: int| #![trigger splits[i]]
        0 <= i < splits.len() && splits[i] is Some ==> {
            &&& 1 <= (splits[i]->0).0.splits <= 0xFFFF
            &&& scratch + (splits[i]->0).1 <= u64::MAX
        }
}

impl Executor {
    /// The commands of a batch of independent operations: no barriers.
    pub fn record_matmul_commands(
        &self,
        ops: &[MatmulOp<'_>],
        resolved: &[ResolvedMatmul],
        plans: &[OpPlan],
    ) -> (r: Result<Vec<MatmulCommand>, Error>)
        requires
            resolved@.len() == ops@.len(),
            plans@.len() == ops@.len(),
            forall|i: int| 0 <= i < plans@.len() ==> plan_present(self@.pipeline, #[trigger] plans@[i]),
        ensures
            match batch_commands(self@, ops@, resolved@, plans@, ops@.len() as int) {
                Ok((commands, _)) => r is Ok && r->Ok_0@ == commands,
                Err(e) => r is Err && r->Err_0@ == e,
            },
    {
        let mut commands: Vec<MatmulCommand> = Vec::new();
        let mut bound: Option<PipelineId> = None;
        let mut i: usize = 0;
        while i < ops.len()
            invariant
                i <= ops@.len(),
                resolved@.len() == ops@.len(),
                plans@.len() == ops@.len(),
                forall|i: int| 0 <= i < plans@.len() ==> plan_present(
                    self@.pipeline,
                    #[trigger] plans@[i],
                ),
                batch_commands(self@, ops@, resolved@, plans@, i as int) == Ok::<
                    (Seq<MatmulCommand>, Option<PipelineId>),
                    ErrorView,
                >((commands@, bound)),
            decreases ops.len() - i,
        {
            proof {
                lemma_batch_failure_stays(
                    self@,
                    ops@,
                    resolved@,
                    plans@,
                    i + 1,
                    ops@.len() as int,
                );
                assert(plan_present(self@.pipeline, plans@[i as int]));
            }
            match self.record_one_matmul(&ops[i], &resolved[i], plans[i].kernel, &mut bound) {
                Ok(command) => commands.push(command),
                Err(e) => return Err(e),
            }
            i = i + 1;
        }
        Ok(commands)
    }

    /// The commands of a graph of dependent operations: a barrier precedes a
    /// step exactly where it has to wait for work since the last one.
    pub fn record_matmul_graph_commands(
        &self,
        ops: &[MatmulOp<'_>],
        resolved: &[ResolvedMatmul],
        plans: &[OpPlan],
        splits: &[SplitSlot],
        scratch: u64,
    ) -> (r: Result<Vec<GraphCommand>, Error>)
        requires
            resolved@.len() == ops@.len(),
            plans@.len() == ops@.len(),
            splits@.len() == ops@.len(),
            forall|i: int| 0 <= i < plans@.len() ==> plan_present(self@.pipeline, #[trigger] plans@[i]),
            splits_addressable(splits@, scratch),
        ensures
            match graph_commands(
                self@,
                ops@,
                resolved@,
                plans@,
                splits@,
                scratch,
                ops@.len() as int,
            ) {
                Ok((commands, _)) => r is Ok && r->Ok_0@ == commands,
                Err(e) => r is Err && r->Err_0@ == e,
            },
    {
        let mut commands: Vec<GraphCommand> = Vec::new();
        let mut bound: Option<PipelineId> = None;
        let mut cursor: HazardCursor = HazardCursor::new();
        let ghost accesses = graph_accesses(ops@, splits@);
        let mut i: usize = 0;
        assert(accesses.take(0) =~= Seq::empty());
        while i < ops.len()
            invariant
                i <= ops@.len(),
                resolved@.len() == ops@.len(),
                plans@.len() == ops@.len(),
                splits@.len() == ops@.len(),
                forall|i: int| 0 <= i < plans@.len() ==> plan_present(
                    self@.pipeline,
                    #[trigger] plans@[i],
                ),
                splits_addressable(splits@, scratch),
                accesses == graph_accesses(ops@, splits@),
                cursor@ == pending_after(accesses.take(i as int)),
                graph_commands(self@, ops@, resolved@, plans@, splits@, scratch, i as int) == Ok::<
                    (Seq<GraphCommand>, Option<PipelineId>),
                    ErrorView,
                >((commands@, bound)),
            decreases ops.len() - i,
        {
            let op: &MatmulOp<'_> = &ops[i];
            proof {
                let next = accesses.take(i + 1);
                assert(next.drop_last() =~= accesses.take(i as int));
                assert(next.last() == accesses[i as int]);
                assert(accesses[i as int] == graph_access(ops@[i as int], splits@[i as int]));
                lemma_graph_failure_stays(
                    self@,
                    ops@,
                    resolved@,
                    plans@,
                    splits@,
                    scratch,
                    i + 1,
                    ops@.len() as int,
                );
                assert(plan_present(self@.pipeline, plans@[i as int]));
            }
            match splits[i] {
                Some((plan, offset)) => {
                    assert(splits@[i as int] is Some);
                    let access: Access = Access::new().read(op.call.a).read(op.call.b).write(
                        op.call.c,
                    ).flushing();
                    let barrier: bool = cursor.barrier_before(&access);
                    let step: GraphStep = GraphStep::SplitK2(
                        record_split_k2_commands(
                            op.call.alpha,
                            &resolved[i],
                            &plan,
                            op.call.a.device_address(),
                            op.call.b.device_address(),
                            op.call.c.device_address(),
                            scratch + offset,
                        ),
                    );
                    commands.push(GraphCommand { barrier, step });
                    bound = None;
                }
                None => {
                    let access: Access = access_of(op);
                    let barrier: bool = cursor.barrier_before(&access);
                    match self.record_one_matmul(op, &resolved[i], plans[i].kernel, &mut bound) {
                        Ok(command) => {
                            commands.push(
                                GraphCommand { barrier, step: GraphStep::Matmul(command) },
                            );
                        }
                        Err(e) => return Err(e),
                    }
                }
            }
            i = i + 1;
        }
        Ok(commands)
    }
}

/// A recorded graph holds one command per operation, with a barrier exactly
/// where one is owed.
pub proof fn graph_barriers_match_hazards(
    x: ExecutorView,
    ops: Seq<MatmulOp>,
    resolved: Seq<ResolvedMatmul>,
    plans: Seq<OpPlan>,
    splits: Seq<SplitSlot>,
    scratch: u64,
    upto: int,
)
    requires
        0 <= upto <= ops.len(),
        graph_commands(x, ops, resolved, plans, splits, scratch, upto) is Ok,
    ensures
        ({
            let commands = (graph_commands(x, ops, resolved, plans, splits, scratch, upto)->Ok_0).0;
            &&& commands.len() == upto
            &&& forall|i: int| 0 <= i < upto ==> (#[trigger] commands[i]).barrier == barrier_at(
                graph_accesses(ops, splits),
                i,
            )
            &&& forall|i: int| 0 <= i < upto ==> ((#[trigger] commands[i]).step is SplitK2 <==> splits[i] is Some)
        }),
    decreases upto,
{
    if upto > 0 {
        graph_barriers_match_hazards(x, ops, resolved, plans, splits, scratch, upto - 1);
    }
}

/// Between two operations of a recorded graph of which the later depends on
/// the earlier stands a barrier: before the later one, or before or inside
/// one in between.
pub proof fn dependent_operations_are_separated(
    x: ExecutorView,
    ops: Seq<MatmulOp>,
    resolved: Seq<ResolvedMatmul>,
    plans: Seq<OpPlan>,
    splits: Seq<SplitSlot>,
    scratch: u64,
    i: int,
    j: int,
)
    requires
        0 <= i < j < ops.len(),
        graph_commands(x, ops, resolved, plans, splits, scratch, ops.len() as int) is Ok,
        graph_access(ops[j], splits[j]).conflicts(graph_access(ops[i], splits[i])),
    ensures
        ({
            let commands = (graph_commands(
                x,
                ops,
                resolved,
                plans,
                splits,
                scratch,
                ops.len() as int,
            )->Ok_0).0;
            ||| commands[j].barrier
            ||| exists|p: int| i < p < j && ((#[trigger] commands[p]).barrier || commands[p].step is SplitK2)
        }),
{
    let accesses = graph_accesses(ops, splits);
    let n = ops.len() as int;
    let commands = (graph_commands(x, ops, resolved, plans, splits, scratch, n)->Ok_0).0;
    graph_barriers_match_hazards(x, ops, resolved, plans, splits, scratch, n);
    assert(accesses[i] == graph_access(ops[i], splits[i]));
    assert(accesses[j] == graph_access(ops[j], splits[j]));
    crate::executor::hazard::conflicting_dispatches_are_separated(accesses, i, j);
    if barrier_at(accesses, j) {
        assert(commands[j].barrier);
    } else {
        let p = choose|p: int|
            i < p < j && #[trigger] crate::executor::hazard::separates(accesses, p);
        assert(accesses[p] == graph_access(ops[p], splits[p]));
        assert(commands[p].barrier || commands[p].step is SplitK2);
    }
}

} // verus!
