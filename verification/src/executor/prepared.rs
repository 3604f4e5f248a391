//! Record once, replay often.
//!
//! A prepared batch is checked, routed and recorded once; each replay is one
//! submission. Push constants carry device addresses, so that it stays bound
//! to its shapes and tensors. Only pointer-addressed kernels are taken, and
//! only data-parallel routes: the scratch of a split belongs to a single
//! submission.

use crate::context::VulkanContext;
use crate::error::{outcome, refused, refused_name, Error, ErrorView, OpName, Refusal};
use crate::executor::cells::PosBuffer;
use crate::executor::dispatch::{batch_result, no_splits, unsplit};
use crate::executor::graph::{batch_commands, graph_commands, GraphCommand, SplitSlot};
use crate::executor::graph_ops::{
    exec_commands, graph_entry, graph_ready, graph_steps, pos_refusal, prepared_address, steps_of,
    ExecCommand, ExecOp, ExecPlan, StepView,
};
use crate::executor::plan::{
    plan_present, shape_plan, slot_kernel, Executor, ExecutorView, OpPlan,
};
use crate::executor::recording::MatmulCommand;
use crate::matmul::api::{MatmulOp, RunStats};
use crate::matmul::resolution::ResolvedMatmul;
use crate::pipeline::catalog::KernelSpec;
use vstd::prelude::*;

verus! {

/// The recorded commands of a prepared batch.
pub enum PreparedCommands {
    /// Independent operations: no barriers.
    Batch(Vec<MatmulCommand>),
    /// A dependent chain.
    Graph(Vec<GraphCommand>),
    /// A mixed graph.
    Mixed(Vec<ExecCommand>),
}

/// The data-parallel routes of a resolved batch.
pub open spec fn prepared_plans(x: ExecutorView, resolved: Seq<ResolvedMatmul>) -> Seq<OpPlan> {
    Seq::new(
        resolved.len(),
        |i: int|
            shape_plan(
                x.pipeline,
                resolved[i].batch,
                resolved[i].m,
                resolved[i].n,
                resolved[i].k,
                resolved[i].b_f16,
                false,
            ),
    )
}

/// Whether every resolved shape has a kernel.
pub open spec fn all_shapes_ready(x: ExecutorView, resolved: Seq<ResolvedMatmul>) -> bool {
    forall|i: int|
        0 <= i < resolved.len() ==> x.pipeline.shape_ready(
            (#[trigger] resolved[i]).batch,
            resolved[i].m,
            resolved[i].n,
            resolved[i].k,
            resolved[i].b_f16,
        )
}

/// Whether every operation of a batch that can be prepared has a kernel.
pub open spec fn preparable(x: ExecutorView, ops: Seq<MatmulOp>) -> bool {
    x.ctx.buffer_device_address_enabled ==> (batch_result(x.ctx, ops) matches Ok((resolved, _))
        ==> all_shapes_ready(x, resolved))
}

/// The first of the routes from `from` on whose kernel binds descriptors.
pub open spec fn first_bound(plans: Seq<OpPlan>, from: int) -> Option<int>
    decreases plans.len() - from,
{
    if from < 0 || from >= plans.len() {
        None
    } else if slot_kernel(plans[from].kernel).uses_descriptors {
        Some(from)
    } else {
        first_bound(plans, from + 1)
    }
}

/// The checks that come before a prepared batch is recorded.
pub open spec fn prepare_result(x: ExecutorView, ops: Seq<MatmulOp>) -> Result<
    (Seq<ResolvedMatmul>, u64),
    ErrorView,
> {
    if ops.len() == 0 {
        Err(refused(Refusal::PrepareEmpty))
    } else if !x.ctx.buffer_device_address_enabled {
        Err(refused(Refusal::PrepareNeedsAddresses))
    } else {
        match batch_result(x.ctx, ops) {
            Err(e) => Err(e),
            Ok((resolved, flops)) => {
                let plans = prepared_plans(x, resolved);
                match first_bound(plans, 0) {
                    Some(i) => Err(
                        refused_name(
                            Refusal::PrepareDescriptors,
                            slot_kernel(plans[i].kernel).name@,
                        ),
                    ),
                    None => Ok((resolved, flops)),
                }
            },
        }
    }
}

/// A prepared batch and whether a replay of it is in flight.
pub struct PreparedOps {
    commands: PreparedCommands,
    in_flight: bool,
    n_calls: usize,
    total_flops: u64,
}

/// What a prepared batch knows.
pub struct PreparedView {
    pub in_flight: bool,
    pub n_calls: usize,
    pub total_flops: u64,
}

impl View for PreparedOps {
    type V = PreparedView;

    closed spec fn view(&self) -> PreparedView {
        PreparedView {
            in_flight: self.in_flight,
            n_calls: self.n_calls,
            total_flops: self.total_flops,
        }
    }
}

/// Whether recorded commands are those of a batch.
pub open spec fn commands_agree(
    x: ExecutorView,
    ops: Seq<MatmulOp>,
    resolved: Seq<ResolvedMatmul>,
    with_barriers: bool,
    commands: PreparedCommands,
) -> bool {
    let plans = prepared_plans(x, resolved);
    match commands {
        PreparedCommands::Batch(list) => !with_barriers && (batch_commands(
            x,
            ops,
            resolved,
            plans,
            ops.len() as int,
        ) matches Ok((want, _)) && list@ == want),
        PreparedCommands::Graph(list) => with_barriers && (graph_commands(
            x,
            ops,
            resolved,
            plans,
            unsplit(ops.len()),
            0,
            ops.len() as int,
        ) matches Ok((want, _)) && list@ == want),
        PreparedCommands::Mixed(_) => false,
    }
}

/// The error of recording a prepared batch.
pub open spec fn recording_error(
    x: ExecutorView,
    ops: Seq<MatmulOp>,
    resolved: Seq<ResolvedMatmul>,
    with_barriers: bool,
) -> Option<ErrorView> {
    let plans = prepared_plans(x, resolved);
    if with_barriers {
        match graph_commands(x, ops, resolved, plans, unsplit(ops.len()), 0, ops.len() as int) {
            Ok(_) => None,
            Err(e) => Some(e),
        }
    } else {
        match batch_commands(x, ops, resolved, plans, ops.len() as int) {
            Ok(_) => None,
            Err(e) => Some(e),
        }
    }
}

/// The steps, the work and the commands of a mixed graph that is prepared
/// with a position cell at an address, or the first check that it fails.
pub open spec fn prepare_exec_result(x: ExecutorView, ops: Seq<ExecOp>, pos: u64) -> Result<
    (Seq<StepView>, int, Seq<ExecCommand>),
    ErrorView,
> {
    if let Some(e) = graph_entry(x, ops, OpName::PrepareExecOps) {
        Err(e)
    } else if let Some(e) = pos_refusal(ops, pos, ops.len() as int) {
        Err(e)
    } else {
        match graph_steps(x, ops, ops.len() as int) {
            Err(e) => Err(e),
            Ok((steps, work)) => match exec_commands(x, ops, steps, steps.len() as int) {
                Err(e) => Err(e),
                Ok((commands, _)) => Ok((steps, work, commands)),
            },
        }
    }
}

impl Executor {
    /// Checks, plans and records a mixed graph once for repeated replay.
    /// Every position cell that it reads has to be `pos`. The chains of the
    /// plan are placed before the commands are recorded into a buffer.
    pub fn prepare_exec_ops(&self, ops: &[ExecOp<'_>], pos: Option<&PosBuffer>) -> (r: Result<
        (PreparedOps, ExecPlan),
        Error,
    >)
        requires
            graph_entry(self@, ops@, OpName::PrepareExecOps) is None && pos_refusal(
                ops@,
                prepared_address(pos),
                ops@.len() as int,
            ) is None ==> graph_ready(self@, ops@),
        ensures
            match prepare_exec_result(self@, ops@, prepared_address(pos)) {
                Err(e) => r is Err && r->Err_0@ == e,
                Ok((steps, work, commands)) => {
                    &&& r is Ok
                    &&& steps_of((r->Ok_0).1.steps@) == steps
                    &&& (r->Ok_0).1.total_flops == work
                    &&& (r->Ok_0).0@ == (PreparedView {
                        in_flight: false,
                        n_calls: ops@.len() as usize,
                        total_flops: work as u64,
                    })
                    &&& (r->Ok_0).0.recorded() matches PreparedCommands::Mixed(list)
                        && list@ == commands
                },
            },
    {
        let plan: ExecPlan = match self.plan_prepare_exec_ops(ops, pos) {
            Ok(plan) => plan,
            Err(e) => return Err(e),
        };
        let commands: Vec<ExecCommand> = match self.record_exec_ops(ops, &plan) {
            Ok(commands) => commands,
            Err(e) => return Err(e),
        };
        let prepared: PreparedOps = PreparedOps {
            commands: PreparedCommands::Mixed(commands),
            in_flight: false,
            n_calls: ops.len(),
            total_flops: plan.total_flops,
        };
        Ok((prepared, plan))
    }

    /// Decides [`preparable`].
    pub fn check_preparable(&self, ops: &[MatmulOp<'_>]) -> (r: bool)
        ensures
            r == preparable(self@, ops@),
    {
        if !self.context().buffer_device_address_enabled {
            return true;
        }
        let resolved: Vec<ResolvedMatmul> = match self.check_ops(ops) {
            Ok((resolved, _)) => resolved,
            Err(_) => return true,
        };
        let mut i: usize = 0;
        while i < resolved.len()
            invariant
                i <= resolved@.len(),
                self@.ctx.buffer_device_address_enabled,
                batch_result(self@.ctx, ops@) is Ok,
                resolved@ == (batch_result(self@.ctx, ops@)->Ok_0).0,
                all_shapes_ready(self@, resolved@.take(i as int)),
            decreases resolved.len() - i,
        {
            let dims: ResolvedMatmul = resolved[i];
            if !self.pipeline().shape_ready(dims.batch, dims.m, dims.n, dims.k, dims.b_f16) {
                assert(dims == resolved@[i as int]);
                return false;
            }
            proof {
                let next = resolved@.take(i + 1);
                assert forall|j: int| 0 <= j < next.len() implies self@.pipeline.shape_ready(
                    (#[trigger] next[j]).batch,
                    next[j].m,
                    next[j].n,
                    next[j].k,
                    next[j].b_f16,
                ) by {
                    if j < i {
                        assert(next[j] == resolved@.take(i as int)[j]);
                    }
                }
            }
            i = i + 1;
        }
        assert(resolved@.take(i as int) =~= resolved@);
        true
    }

    /// Checks, routes and records a batch once for repeated replay: a
    /// dependent chain with `with_barriers`, else independent operations.
    pub fn prepare_ops(&self, ops: &[MatmulOp<'_>], with_barriers: bool) -> (r: Result<
        PreparedOps,
        Error,
    >)
        requires
            preparable(self@, ops@),
        ensures
            match prepare_result(self@, ops@) {
                Err(e) => r is Err && r->Err_0@ == e,
                Ok((resolved, flops)) => match recording_error(
                    self@,
                    ops@,
                    resolved,
                    with_barriers,
                ) {
                    Some(e) => r is Err && r->Err_0@ == e,
                    None => {
                        &&& r is Ok
                        &&& r->Ok_0@ == (PreparedView {
                            in_flight: false,
                            n_calls: ops@.len() as usize,
                            total_flops: flops,
                        })
                        &&& commands_agree(
                            self@,
                            ops@,
                            resolved,
                            with_barriers,
                            r->Ok_0.recorded(),
                        )
                    },
                },
            },
    {
        if ops.len() == 0 {
            return Err(Error::new(Refusal::PrepareEmpty));
        }
        let ctx: &VulkanContext = self.context();
        if !ctx.buffer_device_address_enabled {
            return Err(Error::new(Refusal::PrepareNeedsAddresses));
        }
        let (resolved, flops): (Vec<ResolvedMatmul>, u64) = match self.check_ops(ops) {
            Ok(checked) => checked,
            Err(e) => return Err(e),
        };
        let plans: Vec<OpPlan> = self.plan_data_parallel(&resolved);
        let mut i: usize = 0;
        while i < plans.len()
            invariant
                i <= plans@.len(),
                forall|j: int| 0 <= j < plans@.len() ==> plan_present(
                    self@.pipeline,
                    #[trigger] plans@[j],
                ),
                first_bound(plans@, 0) == first_bound(plans@, i as int),
                plans@ == prepared_plans(self@, resolved@),
                ops@.len() > 0,
                self@.ctx.buffer_device_address_enabled,
                batch_result(self@.ctx, ops@) == Ok::<(Seq<ResolvedMatmul>, u64), ErrorView>(
                    (resolved@, flops),
                ),
            decreases plans.len() - i,
        {
            assert(plan_present(self@.pipeline, plans@[i as int]));
            let kernel: KernelSpec = self.pipeline().kernel_at(plans[i].kernel);
            if kernel.uses_descriptors {
                return Err(Error::with_name(Refusal::PrepareDescriptors, kernel.name));
            }
            i = i + 1;
        }
        let commands: PreparedCommands = if with_barriers {
            let none: Vec<SplitSlot> = no_splits(ops.len());
            match self.record_matmul_graph_commands(ops, &resolved, &plans, &none, 0) {
                Ok(list) => PreparedCommands::Graph(list),
                Err(e) => return Err(e),
            }
        } else {
            match self.record_matmul_commands(ops, &resolved, &plans) {
                Ok(list) => PreparedCommands::Batch(list),
                Err(e) => return Err(e),
            }
        };
        Ok(PreparedOps { commands, in_flight: false, n_calls: ops.len(), total_flops: flops })
    }

    fn plan_data_parallel(&self, resolved: &[ResolvedMatmul]) -> (r: Vec<OpPlan>)
        requires
            all_shapes_ready(self@, resolved@),
        ensures
            r@ == prepared_plans(self@, resolved@),
            forall|i: int| 0 <= i < r@.len() ==> plan_present(self@.pipeline, #[trigger] r@[i]),
    {
        let mut plans: Vec<OpPlan> = Vec::new();
        let mut i: usize = 0;
        while i < resolved.len()
            invariant
                i <= resolved@.len(),
                all_shapes_ready(self@, resolved@),
                plans@ =~= prepared_plans(self@, resolved@).take(i as int),
                forall|j: int| 0 <= j < i ==> plan_present(self@.pipeline, #[trigger] plans@[j]),
            decreases resolved.len() - i,
        {
            let dims: ResolvedMatmul = resolved[i];
            assert(dims == resolved@[i as int]);
            plans.push(self.plan_shape(dims.batch, dims.m, dims.n, dims.k, dims.b_f16, false));
            i = i + 1;
        }
        assert(plans@ =~= prepared_plans(self@, resolved@));
        plans
    }
}

impl PreparedOps {
    /// The recorded commands.
    pub closed spec fn recorded(self) -> PreparedCommands {
        self.commands
    }

    /// The recorded commands.
    pub fn commands(&self) -> (r: &PreparedCommands)
        ensures
            *r == self.recorded(),
    {
        &self.commands
    }

    /// Whether a replay may be submitted: none is in flight.
    pub fn check_submit(&self) -> (r: Result<(), Error>)
        ensures
            outcome(r) == (if self@.in_flight {
                Err(refused(Refusal::AlreadyInFlight))
            } else {
                Ok(())
            }),
    {
        if self.in_flight {
            return Err(Error::new(Refusal::AlreadyInFlight));
        }
        Ok(())
    }

    /// A replay was submitted.
    pub fn submitted(&mut self)
        requires
            !old(self)@.in_flight,
        ensures
            final(self)@ == (PreparedView { in_flight: true, ..old(self)@ }),
            final(self).recorded() == old(self).recorded(),
    {
        self.in_flight = true;
    }

    /// Whether there is a replay to wait for.
    pub fn check_wait(&self) -> (r: Result<(), Error>)
        ensures
            outcome(r) == (if self@.in_flight {
                Ok(())
            } else {
                Err(refused(Refusal::NothingSubmitted))
            }),
    {
        if !self.in_flight {
            return Err(Error::new(Refusal::NothingSubmitted));
        }
        Ok(())
    }

    /// The replay in flight completed, in the given time where the device
    /// measures it.
    pub fn completed(&mut self, gpu_time_ns: Option<u64>) -> (r: RunStats)
        requires
            old(self)@.in_flight,
        ensures
            final(self)@ == (PreparedView { in_flight: false, ..old(self)@ }),
            final(self).recorded() == old(self).recorded(),
            r == (RunStats {
                gpu_time_ns,
                n_calls: old(self)@.n_calls,
                total_flops: old(self)@.total_flops,
            }),
    {
        self.in_flight = false;
        RunStats { gpu_time_ns, n_calls: self.n_calls, total_flops: self.total_flops }
    }
}

} // verus!
