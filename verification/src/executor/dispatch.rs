//! Planning of a submission: what is refused, which route each operation
//! takes, and where the scratch of split operations lies.

use crate::context::VulkanContext;
use crate::error::{refused, Error, ErrorView, Refusal};
use crate::executor::graph::{splits_addressable, SplitSlot};
use crate::executor::plan::{
    demoted_plan, matmul_plan, op_routes, plan_present, plannable, Executor, ExecutorView, OpPlan,
};
use crate::executor::splitk2::{
    checked_auto_scratch_end, region_end, split_plan, SplitK2Dispatch, AUTO_SCRATCH_CAP_BYTES,
};
use crate::executor::validation::op_context_result;
use crate::matmul::api::{Epilogue, MatmulCall, MatmulOp};
use crate::matmul::resolution::{
    flops_sum, resolve_op, resolve_ops, resolved_is_addressable, total_flops, ResolvedMatmul,
    ResolvedMatmulBatch,
};
use crate::pipeline::tuning::TuneKey;
use vstd::prelude::*;

verus! {

/// The first operation whose operands do not live on the device decides.
pub open spec fn contexts_result(ctx: VulkanContext, ops: Seq<MatmulOp>, upto: int) -> Result<
    (),
    ErrorView,
>
    decreases upto,
{
    if upto <= 0 {
        Ok(())
    } else if let Err(e) = contexts_result(ctx, ops, upto - 1) {
        Err(e)
    } else {
        op_context_result(ctx, ops[upto - 1])
    }
}

/// The resolved operations of a batch and their total work, or the first
/// check that fails: ownership, then shapes, then the work.
pub open spec fn batch_result(ctx: VulkanContext, ops: Seq<MatmulOp>) -> Result<
    (Seq<ResolvedMatmul>, u64),
    ErrorView,
> {
    if let Err(e) = contexts_result(ctx, ops, ops.len() as int) {
        Err(e)
    } else {
        match resolve_ops(ops) {
            Err(e) => Err(e),
            Ok(resolved) => if flops_sum(resolved) > u64::MAX {
                Err(refused(Refusal::TotalFlopOverflow))
            } else {
                Ok((resolved, flops_sum(resolved) as u64))
            },
        }
    }
}

/// The resolved operations of a batch that is to be submitted at once, or the
/// first check that fails: their number, then those of the batch.
pub open spec fn admitted(x: ExecutorView, ops: Seq<MatmulOp>) -> Result<
    (Seq<ResolvedMatmul>, u64),
    ErrorView,
> {
    if ops.len() > x.max_calls_per_submit {
        Err(
            refused(
                Refusal::TooManyOps { ops: ops.len() as usize, max: x.max_calls_per_submit },
            ),
        )
    } else {
        batch_result(x.ctx, ops)
    }
}

proof fn lemma_contexts_failure_stays(ctx: VulkanContext, ops: Seq<MatmulOp>, i: int, j: int)
    requires
        i <= j,
    ensures
        contexts_result(ctx, ops, i) is Err ==> contexts_result(ctx, ops, j) == contexts_result(
            ctx,
            ops,
            i,
        ),
    decreases j - i,
{
    if i < j {
        lemma_contexts_failure_stays(ctx, ops, i, j - 1);
    }
}

/// What resolves has non-empty extents.
pub proof fn lemma_resolved_nonempty(ops: Seq<MatmulOp>, i: int)
    requires
        resolve_ops(ops) is Ok,
        0 <= i < ops.len(),
    ensures
        resolve_ops(ops)->Ok_0.len() == ops.len(),
        resolve_op(ops[i]) == Ok::<ResolvedMatmul, ErrorView>(resolve_ops(ops)->Ok_0[i]),
        ({
            let dims = resolve_ops(ops)->Ok_0[i];
            dims.batch > 0 && dims.m > 0 && dims.n > 0 && dims.k > 0
        }),
    decreases ops.len(),
{
    let front = ops.drop_last();
    if i == ops.len() - 1 {
        if front.len() > 0 {
            lemma_resolved_nonempty(front, 0);
        }
        let call = ops.last().call;
        resolved_is_addressable(call.a@.shape, call.b@.shape, call.c@.shape);
    } else {
        lemma_resolved_nonempty(front, i);
        assert(front[i] == ops[i]);
    }
}

/// An operation with nothing fused into it that overwrites its output: the
/// form that split-K and measuring take.
pub open spec fn plain_form(op: MatmulOp) -> bool {
    !op.call.accumulate && op.epilogue == Epilogue::plain() && op.normed_a is None && op.store is Absent
}

/// Whether the route of an operation may be split: any plain one of a graph,
/// whose barriers make the split's own free, and a plain one on its own.
pub open spec fn may_split(ops: Seq<MatmulOp>, i: int, with_barriers: bool) -> bool {
    plain_form(ops[i]) && (with_barriers || ops.len() == 1)
}

/// The route of an operation of a batch.
pub open spec fn batch_op_plan(
    x: ExecutorView,
    ops: Seq<MatmulOp>,
    dims: ResolvedMatmul,
    i: int,
    with_barriers: bool,
) -> Result<OpPlan, ErrorView> {
    match matmul_plan(x.pipeline, dims, may_split(ops, i, with_barriers)) {
        Err(e) => Err(e),
        Ok(plan) => Ok(demoted_plan(x.pipeline, ops[i], dims, plan)),
    }
}

/// The routes of the first `upto` operations of a batch.
pub open spec fn batch_plans(
    x: ExecutorView,
    ops: Seq<MatmulOp>,
    resolved: Seq<ResolvedMatmul>,
    with_barriers: bool,
    upto: int,
) -> Result<Seq<OpPlan>, ErrorView>
    decreases upto,
{
    if upto <= 0 {
        Ok(Seq::empty())
    } else {
        match batch_plans(x, ops, resolved, with_barriers, upto - 1) {
            Err(e) => Err(e),
            Ok(plans) => match batch_op_plan(x, ops, resolved[upto - 1], upto - 1, with_barriers) {
                Err(e) => Err(e),
                Ok(plan) => Ok(plans.push(plan)),
            },
        }
    }
}

proof fn lemma_plans_failure_stays(
    x: ExecutorView,
    ops: Seq<MatmulOp>,
    resolved: Seq<ResolvedMatmul>,
    with_barriers: bool,
    i: int,
    j: int,
)
    requires
        i <= j,
    ensures
        batch_plans(x, ops, resolved, with_barriers, i) is Err ==> batch_plans(
            x,
            ops,
            resolved,
            with_barriers,
            j,
        ) == batch_plans(x, ops, resolved, with_barriers, i),
    decreases j - i,
{
    if i < j {
        lemma_plans_failure_stays(x, ops, resolved, with_barriers, i, j - 1);
    }
}

/// The splits of the first `upto` operations of a graph and the scratch that
/// they take together. An operation whose split cannot be planned or whose
/// region would exceed the budget is dispatched plainly.
pub open spec fn split_slots(
    ctx: VulkanContext,
    resolved: Seq<ResolvedMatmul>,
    plans: Seq<OpPlan>,
    upto: int,
) -> (Seq<SplitSlot>, u64)
    decreases upto,
{
    if upto <= 0 {
        (Seq::empty(), 0)
    } else {
        let i = upto - 1;
        let (slots, offset) = split_slots(ctx, resolved, plans, i);
        match plans[i].splitk2 {
            None => (slots.push(None), offset),
            Some(splits) => match split_plan(ctx, resolved[i], splits) {
                Err(_) => (slots.push(None), offset),
                Ok(plan) => if region_end(offset, plan.scratch_bytes) <= AUTO_SCRATCH_CAP_BYTES {
                    (
                        slots.push(Some((plan, offset))),
                        region_end(offset, plan.scratch_bytes) as u64,
                    )
                } else {
                    (slots.push(None), offset)
                },
            },
        }
    }
}

/// A planned submission.
pub struct OpsPlan {
    pub resolved: Vec<ResolvedMatmul>,
    pub plans: Vec<OpPlan>,
    /// The split of each operation of a graph; none of them elsewhere.
    pub splits: Vec<SplitSlot>,
    /// Scratch that the splits take together.
    pub scratch_bytes: u64,
    pub total_flops: u64,
}

impl OpsPlan {
    /// The split count of a submission that goes through two-stage split-K as
    /// a whole: a single operation outside a graph whose route says so.
    pub fn lone_split(&self, with_barriers: bool) -> (r: Option<u32>)
        ensures
            r == (if !with_barriers && self.plans@.len() == 1 {
                self.plans@[0].splitk2
            } else {
                None
            }),
    {
        if !with_barriers && self.plans.len() == 1 {
            self.plans[0].splitk2
        } else {
            None
        }
    }
}

fn copied_dims(resolved: &[ResolvedMatmul]) -> (r: Vec<ResolvedMatmul>)
    ensures
        r@ == resolved@,
{
    let mut r: Vec<ResolvedMatmul> = Vec::new();
    let mut i: usize = 0;
    while i < resolved.len()
        invariant
            i <= resolved@.len(),
            r@ =~= resolved@.take(i as int),
        decreases resolved.len() - i,
    {
        r.push(resolved[i]);
        i = i + 1;
    }
    r
}

/// The operations of plain calls.
pub fn plain_ops<'a>(calls: &[MatmulCall<'a>]) -> (r: Vec<MatmulOp<'a>>)
    ensures
        r@.len() == calls@.len(),
        forall|i: int| 0 <= i < calls@.len() ==> #[trigger] r@[i] == MatmulOp::plain(calls@[i]),
{
    let mut ops: Vec<MatmulOp<'a>> = Vec::new();
    let mut i: usize = 0;
    while i < calls.len()
        invariant
            i <= calls@.len(),
            ops@.len() == i,
            forall|j: int| 0 <= j < i ==> #[trigger] ops@[j] == MatmulOp::plain(calls@[j]),
        decreases calls.len() - i,
    {
        ops.push(MatmulOp::new(calls[i]));
        i = i + 1;
    }
    ops
}

/// Whether none of the first `upto` operations is refused for its storage.
pub open spec fn plannable_upto(ctx: VulkanContext, resolved: Seq<ResolvedMatmul>, upto: int) -> bool {
    forall|j: int| 0 <= j < upto ==> plannable(ctx, #[trigger] resolved[j])
}

/// Whether every operation has a kernel, up to the first that is refused.
pub open spec fn all_route(x: ExecutorView, ops: Seq<MatmulOp>, resolved: Seq<ResolvedMatmul>) -> bool {
    forall|i: int|
        0 <= i < resolved.len() && plannable_upto(x.pipeline.ctx, resolved, i) ==> op_routes(
            x.pipeline,
            #[trigger] ops[i],
            resolved[i],
        )
}

/// Whether every operation of a batch that is not refused has a kernel.
pub open spec fn batch_routes(x: ExecutorView, ops: Seq<MatmulOp>) -> bool {
    admitted(x, ops) matches Ok((resolved, _)) ==> all_route(x, ops, resolved)
}

/// The shape that has to be measured before a batch runs: that of a single
/// plain operation without a winner, where measuring is on and the device
/// has timestamps.
pub open spec fn tuning_key_of(x: ExecutorView, ops: Seq<MatmulOp>, resolved: Seq<ResolvedMatmul>) -> Option<TuneKey> {
    let dims = resolved[0];
    let key = TuneKey {
        batch: dims.batch,
        m: dims.m,
        n: dims.n,
        k: dims.k,
        b_f16: dims.b_f16,
    };
    if x.tune && ops.len() == 1 && !ops[0].call.accumulate && ops[0].epilogue == Epilogue::plain()
        && x.pipeline.selection is Auto && !x.pipeline.tuned.contains_key(key)
        && x.ctx.timestamps_supported {
        Some(key)
    } else {
        None
    }
}

impl Executor {
    /// Checks a batch and resolves it.
    pub fn check_ops(&self, ops: &[MatmulOp<'_>]) -> (r: Result<(Vec<ResolvedMatmul>, u64), Error>)
        ensures
            match batch_result(self@.ctx, ops@) {
                Ok((resolved, flops)) => r is Ok && (r->Ok_0).0@ == resolved && (r->Ok_0).1 == flops
                    && resolved.len() == ops@.len(),
                Err(e) => r is Err && r->Err_0@ == e,
            },
    {
        let mut i: usize = 0;
        while i < ops.len()
            invariant
                i <= ops@.len(),
                contexts_result(self@.ctx, ops@, i as int) is Ok,
            decreases ops.len() - i,
        {
            proof {
                lemma_contexts_failure_stays(self@.ctx, ops@, i + 1, ops@.len() as int);
            }
            if let Err(e) = self.validate_op_context(&ops[i]) {
                return Err(e);
            }
            i = i + 1;
        }
        let batch: ResolvedMatmulBatch = match ResolvedMatmulBatch::from_ops(ops) {
            Ok(batch) => batch,
            Err(e) => return Err(e),
        };
        match total_flops(batch.as_slice()) {
            Ok(flops) => Ok((copied_dims(batch.as_slice()), flops)),
            Err(e) => Err(e),
        }
    }

    /// Checks a batch that is to be submitted at once, and resolves it. No
    /// more operations than the executor's limit are taken.
    pub fn admit_ops(&self, ops: &[MatmulOp<'_>]) -> (r: Result<(Vec<ResolvedMatmul>, u64), Error>)
        ensures
            match admitted(self@, ops@) {
                Ok((resolved, flops)) => r is Ok && (r->Ok_0).0@ == resolved && (r->Ok_0).1 == flops
                    && resolved.len() == ops@.len(),
                Err(e) => r is Err && r->Err_0@ == e,
            },
    {
        if ops.len() > self.max_calls_per_submit() as usize {
            return Err(
                Error::new(
                    Refusal::TooManyOps { ops: ops.len(), max: self.max_calls_per_submit() },
                ),
            );
        }
        self.check_ops(ops)
    }

    /// Decides [`batch_routes`].
    pub fn routable(&self, ops: &[MatmulOp<'_>]) -> (r: bool)
        ensures
            r == batch_routes(self@, ops@),
    {
        if ops.len() > self.max_calls_per_submit() as usize {
            return true;
        }
        let resolved: Vec<ResolvedMatmul> = match self.check_ops(ops) {
            Ok((resolved, _)) => resolved,
            Err(_) => return true,
        };
        let ctx: &VulkanContext = self.context();
        let mut i: usize = 0;
        while i < resolved.len()
            invariant
                i <= resolved@.len(),
                *ctx == self@.ctx,
                resolved@.len() == ops@.len(),
                ops@.len() <= self@.max_calls_per_submit,
                batch_result(self@.ctx, ops@) is Ok,
                resolved@ == (batch_result(self@.ctx, ops@)->Ok_0).0,
                plannable_upto(self@.ctx, resolved@, i as int),
                self@.ctx == self@.pipeline.ctx,
                forall|j: int| 0 <= j < i ==> op_routes(
                    self@.pipeline,
                    #[trigger] ops@[j],
                    resolved@[j],
                ),
            decreases resolved.len() - i,
        {
            if !self.op_routes(&ops[i], &resolved[i]) {
                assert(!op_routes(self@.pipeline, ops@[i as int], resolved@[i as int]));
                return false;
            }
            let dims: ResolvedMatmul = resolved[i];
            if !(dims.packed_b || !dims.a_f16 || ctx.coopmat_enabled && ctx.f16_storage_enabled) {
                assert(!plannable(self@.ctx, resolved@[i as int]));
                assert forall|j: int| i < j < resolved@.len() implies !plannable_upto(
                    self@.pipeline.ctx,
                    resolved@,
                    j,
                ) by {
                    assert(!plannable(self@.ctx, resolved@[i as int]));
                }
                return true;
            }
            i = i + 1;
        }
        true
    }

    /// Whether an operation is plain and overwrites its output.
    pub fn is_plain(op: &MatmulOp<'_>) -> (r: bool)
        ensures
            r == plain_form(*op),
    {
        !op.call.accumulate && op.epilogue.is_none() && op.normed_a.is_none() && op.store.is_none()
    }

    /// The shape that has to be measured before a batch runs.
    pub fn tuning_key(&self, ops: &[MatmulOp<'_>], resolved: &[ResolvedMatmul]) -> (r: Option<TuneKey>)
        requires
            resolved@.len() == ops@.len(),
        ensures
            r == tuning_key_of(self@, ops@, resolved@),
    {
        if !self.tune_enabled() || ops.len() != 1 {
            return None;
        }
        let dims: ResolvedMatmul = resolved[0];
        let key: TuneKey = TuneKey {
            batch: dims.batch,
            m: dims.m,
            n: dims.n,
            k: dims.k,
            b_f16: dims.b_f16,
        };
        if !ops[0].call.accumulate && ops[0].epilogue.is_none() && !self.pipeline().is_tuned(key)
            && self.context().timestamps_supported {
            Some(key)
        } else {
            None
        }
    }

    /// The routes of a resolved batch.
    pub fn plan_batch(&self, ops: &[MatmulOp<'_>], resolved: &[ResolvedMatmul], with_barriers: bool) -> (r:
        Result<Vec<OpPlan>, Error>)
        requires
            resolved@.len() == ops@.len(),
            all_route(self@, ops@, resolved@),
        ensures
            match batch_plans(self@, ops@, resolved@, with_barriers, ops@.len() as int) {
                Ok(plans) => {
                    &&& r is Ok
                    &&& r->Ok_0@ == plans
                    &&& plans.len() == ops@.len()
                    &&& forall|i: int| 0 <= i < plans.len() ==> plan_present(
                        self@.pipeline,
                        #[trigger] plans[i],
                    )
                },
                Err(e) => r is Err && r->Err_0@ == e,
            },
    {
        let mut plans: Vec<OpPlan> = Vec::new();
        let mut i: usize = 0;
        while i < ops.len()
            invariant
                i <= ops@.len(),
                resolved@.len() == ops@.len(),
                all_route(self@, ops@, resolved@),
                plannable_upto(self@.pipeline.ctx, resolved@, i as int),
                plans@.len() == i,
                batch_plans(self@, ops@, resolved@, with_barriers, i as int) == Ok::<
                    Seq<OpPlan>,
                    ErrorView,
                >(plans@),
                forall|j: int| 0 <= j < i ==> plan_present(self@.pipeline, #[trigger] plans@[j]),
            decreases ops.len() - i,
        {
            proof {
                lemma_plans_failure_stays(
                    self@,
                    ops@,
                    resolved@,
                    with_barriers,
                    i + 1,
                    ops@.len() as int,
                );
                assert(op_routes(self@.pipeline, ops@[i as int], resolved@[i as int]));
            }
            let eligible: bool = Executor::is_plain(&ops[i]) && (with_barriers || ops.len() == 1);
            match self.plan_matmul(&resolved[i], eligible) {
                Ok(plan) => {
                    plans.push(self.demote_for_op(&ops[i], &resolved[i], plan));
                }
                Err(e) => return Err(e),
            }
            i = i + 1;
        }
        Ok(plans)
    }

    /// The splits of a graph and the scratch that they take together.
    pub fn plan_graph_splits(&self, resolved: &[ResolvedMatmul], plans: &[OpPlan]) -> (r: (
        Vec<SplitSlot>,
        u64,
    ))
        requires
            resolved@.len() == plans@.len(),
            forall|i: int| 0 <= i < resolved@.len() ==> (#[trigger] resolved@[i]).batch > 0
                && resolved@[i].m > 0 && resolved@[i].n > 0,
        ensures
            (r.0@, r.1) == split_slots(self@.ctx, resolved@, plans@, plans@.len() as int),
            r.0@.len() == plans@.len(),
            r.1 <= AUTO_SCRATCH_CAP_BYTES,
    {
        let ctx: &VulkanContext = self.context();
        let mut slots: Vec<SplitSlot> = Vec::new();
        let mut offset: u64 = 0;
        let mut i: usize = 0;
        while i < plans.len()
            invariant
                i <= plans@.len(),
                resolved@.len() == plans@.len(),
                *ctx == self@.ctx,
                forall|i: int| 0 <= i < resolved@.len() ==> (#[trigger] resolved@[i]).batch > 0
                    && resolved@[i].m > 0 && resolved@[i].n > 0,
                slots@.len() == i,
                offset <= AUTO_SCRATCH_CAP_BYTES,
                (slots@, offset) == split_slots(self@.ctx, resolved@, plans@, i as int),
            decreases plans.len() - i,
        {
            let mut slot: SplitSlot = None;
            assert(resolved@[i as int].batch > 0);
            if let Some(splits) = plans[i].splitk2 {
                if let Ok(plan) = SplitK2Dispatch::plan(ctx, &resolved[i], splits) {
                    if let Some(end) = checked_auto_scratch_end(offset, plan.scratch_bytes) {
                        slot = Some((plan, offset));
                        offset = end;
                    }
                }
            }
            slots.push(slot);
            i = i + 1;
        }
        (slots, offset)
    }

    /// Checks, resolves and routes a batch of operations. With
    /// `with_barriers` they form a dependent chain; without, they are
    /// independent. No more than the executor's limit are taken.
    pub fn plan_ops(&self, ops: &[MatmulOp<'_>], with_barriers: bool) -> (r: Result<OpsPlan, Error>)
        requires
            batch_routes(self@, ops@),
        ensures
            ops_plan_agrees(self@, ops@, with_barriers, r),
    {
        let (resolved, flops): (Vec<ResolvedMatmul>, u64) = match self.admit_ops(ops) {
            Ok(checked) => checked,
            Err(e) => return Err(e),
        };
        let plans: Vec<OpPlan> = match self.plan_batch(ops, &resolved, with_barriers) {
            Ok(plans) => plans,
            Err(e) => return Err(e),
        };
        if with_barriers && self.context().buffer_device_address_enabled {
            proof {
                assert forall|i: int| 0 <= i < resolved@.len() implies (#[trigger] resolved@[i]).batch
                    > 0 && resolved@[i].m > 0 && resolved@[i].n > 0 by {
                    lemma_resolved_nonempty(ops@, i);
                }
            }
            let (splits, scratch_bytes) = self.plan_graph_splits(&resolved, &plans);
            Ok(OpsPlan { resolved, plans, splits, scratch_bytes, total_flops: flops })
        } else {
            let splits: Vec<SplitSlot> = no_splits(plans.len());
            Ok(OpsPlan { resolved, plans, splits, scratch_bytes: 0, total_flops: flops })
        }
    }
}

/// No operation is split.
pub open spec fn unsplit(n: nat) -> Seq<SplitSlot> {
    Seq::new(n, |i: int| None)
}

/// No operation is split.
pub fn no_splits(n: usize) -> (r: Vec<SplitSlot>)
    ensures
        r@ == unsplit(n as nat),
{
    let mut slots: Vec<SplitSlot> = Vec::new();
    let mut i: usize = 0;
    while i < n
        invariant
            i <= n,
            slots@ =~= unsplit(i as nat),
        decreases n - i,
    {
        slots.push(None);
        i = i + 1;
    }
    slots
}

/// What [`Executor::plan_ops`] returns: the error of the first check that
/// fails, or the resolved operations, their routes, and for a graph on a
/// device with addresses their splits.
pub open spec fn ops_plan_agrees(
    x: ExecutorView,
    ops: Seq<MatmulOp>,
    with_barriers: bool,
    r: Result<OpsPlan, Error>,
) -> bool {
    match admitted(x, ops) {
        Err(e) => r is Err && r->Err_0@ == e,
        Ok((resolved, flops)) => match batch_plans(
            x,
            ops,
            resolved,
            with_barriers,
            ops.len() as int,
        ) {
            Err(e) => r is Err && r->Err_0@ == e,
            Ok(plans) => r matches Ok(plan) && {
                let graph = with_barriers && x.ctx.buffer_device_address_enabled;
                let (splits, scratch) = split_slots(x.ctx, resolved, plans, plans.len() as int);
                &&& plan.resolved@ == resolved
                &&& plan.plans@ == plans
                &&& plan.total_flops == flops
                &&& plan.splits@ == (if graph { splits } else { unsplit(plans.len()) })
                &&& plan.scratch_bytes == (if graph { scratch } else { 0 })
            },
        },
    }
}

/// The scratch regions of a graph's splits are aligned to sixteen bytes, hold
/// their partial planes, do not overlap and stay within the budget.
pub proof fn split_regions_are_disjoint(
    ctx: VulkanContext,
    resolved: Seq<ResolvedMatmul>,
    plans: Seq<OpPlan>,
    upto: int,
)
    requires
        0 <= upto <= plans.len(),
    ensures
        ({
            let (slots, end) = split_slots(ctx, resolved, plans, upto);
            &&& slots.len() == upto
            &&& end % 16 == 0
            &&& end <= AUTO_SCRATCH_CAP_BYTES
            &&& forall|i: int| #![trigger slots[i]]
                0 <= i < upto && slots[i] is Some ==> {
                    &&& (slots[i]->0).1 % 16 == 0
                    &&& (slots[i]->0).1 + (slots[i]->0).0.scratch_bytes <= end
                    &&& 2 <= (slots[i]->0).0.splits <= 0xFFFF
                }
            &&& forall|i: int, j: int| #![trigger slots[i], slots[j]]
                0 <= i < j < upto && slots[i] is Some && slots[j] is Some ==> (slots[i]->0).1
                    + (slots[i]->0).0.scratch_bytes <= (slots[j]->0).1
        }),
    decreases upto,
{
    if upto > 0 {
        split_regions_are_disjoint(ctx, resolved, plans, upto - 1);
    }
}

/// The splits of a planned graph can be recorded at any scratch address that
/// leaves room for them.
pub proof fn planned_splits_are_addressable(
    ctx: VulkanContext,
    resolved: Seq<ResolvedMatmul>,
    plans: Seq<OpPlan>,
    scratch: u64,
)
    requires
        scratch + split_slots(ctx, resolved, plans, plans.len() as int).1 <= u64::MAX,
    ensures
        splits_addressable(split_slots(ctx, resolved, plans, plans.len() as int).0, scratch),
{
    split_regions_are_disjoint(ctx, resolved, plans, plans.len() as int);
}

/// A split that a route asks for can always be planned: only the scratch
/// budget of a whole graph keeps one from being recorded.
pub proof fn routed_split_is_planned(
    x: ExecutorView,
    ops: Seq<MatmulOp>,
    dims: ResolvedMatmul,
    i: int,
    with_barriers: bool,
)
    requires
        batch_op_plan(x, ops, dims, i, with_barriers) is Ok,
        batch_op_plan(x, ops, dims, i, with_barriers)->Ok_0.splitk2 is Some,
        x.ctx == x.pipeline.ctx,
    ensures
        split_plan(
            x.ctx,
            dims,
            batch_op_plan(x, ops, dims, i, with_barriers)->Ok_0.splitk2->0,
        ) is Ok,
        plain_form(ops[i]),
{
    let splits = batch_op_plan(x, ops, dims, i, with_barriers)->Ok_0.splitk2->0;
    crate::executor::splitk2::fitting_route_plans(x.ctx, dims, splits);
}

} // verus!
