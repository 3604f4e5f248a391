//! The executor's policy, and the route of each operation.

use crate::context::{DeviceKind, VulkanContext};
use crate::error::{outcome, refused, Error, ErrorView, Refusal};
use crate::executor::splitk2::{
    auto_fits, auto_route_fits, heuristic_split, heuristic_splits, resolve_auto_splits,
    stage1_dispatch_info, stage1_large, stage1_tile,
};
use crate::matmul::api::{Epilogue, MatmulOp};
use crate::matmul::resolution::ResolvedMatmul;
use crate::pipeline::catalog::{name_row, KernelSelection, KernelSpec, KERNEL_COUNT};
use crate::pipeline::registry::{MatmulPipeline, PipelineView};
use crate::pipeline::routing::{
    coopmat_choice, coopmat_prefers_m64, f16w_row_packed_selection, packed_row_choice, CoopmatTile,
};
use vstd::prelude::*;

verus! {

/// Executor policy.
#[derive(Copy, Clone, Debug, PartialEq, Eq, Structural)]
pub struct ExecutorConfig {
    pub n_slots: usize,
    pub max_calls_per_submit: u32,
    pub tune: bool,
}

impl Default for ExecutorConfig {
    fn default() -> (r: Self)
        ensures
            r == (ExecutorConfig { n_slots: 2, max_calls_per_submit: 64, tune: false }),
    {
        ExecutorConfig { n_slots: 2, max_calls_per_submit: 64, tune: false }
    }
}

/// Read-only description of the route of a plain matmul shape.
#[derive(Copy, Clone, Debug)]
pub struct DispatchInfo {
    pub kernel: &'static str,
    pub tile: [u32; 3],
    pub split_k2_splits: Option<u32>,
}

impl DispatchInfo {
    /// Describes an explicit two-stage split-K dispatch.
    pub fn split_k2(m: u32, n: u32, splits: u32) -> (r: Self)
        ensures
            r.kernel == (if stage1_large(m, n) {
                "split_k2_m128n128"
            } else {
                "split_k2_m64n64"
            }),
            r.tile@ == seq![stage1_tile(m, n), stage1_tile(m, n), 32u32],
            r.split_k2_splits == Some(splits),
    {
        let (kernel, tile) = stage1_dispatch_info(m, n);
        DispatchInfo { kernel, tile, split_k2_splits: Some(splits) }
    }
}

/// The route of one operation.
#[derive(Copy, Clone, Debug, PartialEq, Eq, Structural)]
pub struct OpPlan {
    /// Registry slot of the data-parallel kernel; used where `splitk2` is
    /// `None`.
    pub kernel: usize,
    /// Two-stage split-K with this many splits.
    pub splitk2: Option<u32>,
}

/// What an executor knows.
pub struct ExecutorView {
    pub ctx: VulkanContext,
    pub pipeline: PipelineView,
    pub n_slots: usize,
    pub max_calls_per_submit: u32,
    pub tune: bool,
}

/// Plans submissions on one device.
pub struct Executor {
    pipeline: MatmulPipeline,
    n_slots: usize,
    max_calls_per_submit: u32,
    tune: bool,
}

impl View for Executor {
    type V = ExecutorView;

    closed spec fn view(&self) -> ExecutorView {
        ExecutorView {
            ctx: self.pipeline@.ctx,
            pipeline: self.pipeline@,
            n_slots: self.n_slots,
            max_calls_per_submit: self.max_calls_per_submit,
            tune: self.tune,
        }
    }
}

/// The split count of an eligible shape: only automatic f32 routes split, a
/// measured outcome stands, and an unmeasured shape is split on discrete
/// GPUs only; in any case the split has to fit.
pub open spec fn split_route(
    p: PipelineView,
    batch: u32,
    m: u32,
    n: u32,
    k: u32,
    b_f16: bool,
    eligible: bool,
) -> Option<u32> {
    let known = p.route_of(batch, m, n, k, b_f16).1;
    let splits = match known {
        Some(measured) => measured,
        None => if p.ctx.device_kind == DeviceKind::DiscreteGpu {
            heuristic_split(batch, m, n, k)
        } else {
            None
        },
    };
    if eligible && !b_f16 && p.selection is Auto && p.ctx.buffer_device_address_enabled
        && splits is Some && auto_fits(
        p.ctx.max_groups_x,
        p.ctx.max_groups_y,
        p.ctx.max_groups_z,
        batch,
        m,
        n,
        k,
        splits->0,
    ) {
        splits
    } else {
        None
    }
}

/// The route of a shape.
pub open spec fn shape_plan(
    p: PipelineView,
    batch: u32,
    m: u32,
    n: u32,
    k: u32,
    b_f16: bool,
    eligible: bool,
) -> OpPlan {
    OpPlan {
        kernel: p.route_of(batch, m, n, k, b_f16).0,
        splitk2: split_route(p, batch, m, n, k, b_f16, eligible),
    }
}

/// The route of a resolved matmul: a packed B has its own kernels, f16
/// activations take a cooperative-matrix kernel, anything else goes by its
/// shape.
pub open spec fn matmul_plan(p: PipelineView, dims: ResolvedMatmul, eligible: bool) -> Result<
    OpPlan,
    ErrorView,
> {
    if dims.packed_b {
        Ok(OpPlan { kernel: packed_slot(dims)->0, splitk2: None })
    } else if dims.a_f16 {
        if !p.ctx.coopmat_enabled || !p.ctx.f16_storage_enabled {
            Err(refused(Refusal::NoF16ActivationSupport))
        } else {
            Ok(OpPlan { kernel: half_slot(dims)->0, splitk2: None })
        }
    } else {
        Ok(shape_plan(p, dims.batch, dims.m, dims.n, dims.k, dims.b_f16, eligible))
    }
}

/// Whether a kernel implements the norm and the store that an operation
/// fuses.
pub open spec fn fusions_fit(op: MatmulOp, kernel: KernelSpec) -> bool {
    (op.normed_a is None || name_row(kernel.name@)) && (op.store is Absent || kernel.fuses_store())
}

/// The kernel at a registry slot.
pub open spec fn slot_kernel(slot: usize) -> KernelSpec {
    KernelSelection::of_index(slot as int).spec_of()
}

/// A route for an operation whose epilogue the planned kernel does not fuse.
pub open spec fn epilogue_plan(p: PipelineView, op: MatmulOp, dims: ResolvedMatmul, plan: OpPlan) -> OpPlan {
    if op.epilogue != Epilogue::plain() && !slot_kernel(plan.kernel).fuses_epilogue()
        && p.selection is Auto {
        OpPlan {
            kernel: p.epilogue_slot(dims.batch, dims.m, dims.n, dims.k, dims.b_f16)->0,
            splitk2: None,
        }
    } else {
        plan
    }
}

/// The route that an operation's fusions allow. Explicit selections and
/// packed operands keep theirs, and fail when the operation is recorded.
pub open spec fn demoted_plan(p: PipelineView, op: MatmulOp, dims: ResolvedMatmul, plan: OpPlan) -> OpPlan {
    if dims.packed_b {
        plan
    } else {
        let first = epilogue_plan(p, op, dims, plan);
        let index = p.heuristic_slot(dims.batch, dims.m, dims.n, dims.k, dims.b_f16)->0;
        if !fusions_fit(op, slot_kernel(first.kernel)) && p.selection is Auto && fusions_fit(
            op,
            slot_kernel(index),
        ) {
            OpPlan { kernel: index, splitk2: None }
        } else {
            first
        }
    }
}

/// The packed kernel that reads a packed B.
pub open spec fn packed_slot(dims: ResolvedMatmul) -> Option<usize> {
    packed_row_choice(dims.k, dims.n).index_of()
}

/// The kernel that f16 activations take.
pub open spec fn half_slot(dims: ResolvedMatmul) -> Option<usize> {
    if coopmat_choice(dims.batch, dims.m, dims.n) == Some(CoopmatTile::T128) {
        KernelSelection::F16wA16Coopmat.index_of()
    } else {
        KernelSelection::F16wA16CoopmatM64.index_of()
    }
}

/// Whether a resolved matmul is not refused for its storage.
pub open spec fn plannable(ctx: VulkanContext, dims: ResolvedMatmul) -> bool {
    dims.packed_b || !dims.a_f16 || ctx.coopmat_enabled && ctx.f16_storage_enabled
}

/// Whether a resolved matmul that is not refused has a kernel.
pub open spec fn can_route(p: PipelineView, dims: ResolvedMatmul) -> bool {
    if dims.packed_b {
        p.filled(packed_slot(dims))
    } else if dims.a_f16 {
        plannable(p.ctx, dims) ==> p.filled(half_slot(dims))
    } else {
        p.shape_ready(dims.batch, dims.m, dims.n, dims.k, dims.b_f16)
    }
}

/// Whether an operation that is planned on a kernel has kernels for what it
/// fuses, where that kernel does not implement it.
pub open spec fn can_demote(p: PipelineView, op: MatmulOp, dims: ResolvedMatmul, plan: OpPlan) -> bool {
    !dims.packed_b && p.selection is Auto ==> {
        &&& op.epilogue != Epilogue::plain() && !slot_kernel(plan.kernel).fuses_epilogue()
            ==> p.epilogue_ready(dims.batch, dims.m, dims.n, dims.k, dims.b_f16)
        &&& !fusions_fit(op, slot_kernel(epilogue_plan(p, op, dims, plan).kernel))
            ==> p.heuristic_ready(dims.batch, dims.m, dims.n, dims.k, dims.b_f16)
    }
}

/// Whether an operation that is not refused has a kernel in the end.
pub open spec fn op_routes(p: PipelineView, op: MatmulOp, dims: ResolvedMatmul) -> bool {
    can_route(p, dims) && (matmul_plan(p, dims, false) matches Ok(plan) ==> can_demote(
        p,
        op,
        dims,
        plan,
    ))
}

/// Where a device's registry has the last kernel of every chain of demotions
/// and the kernels of its winners, every operation has a kernel.
pub proof fn complete_registry_routes(p: PipelineView, op: MatmulOp, dims: ResolvedMatmul)
    requires
        p.present.len() == KERNEL_COUNT,
        p.winners_filled(),
        p.routes(false),
        p.routes(true),
    ensures
        op_routes(p, op, dims),
{
    crate::pipeline::registry::heuristic_always_routes(
        p,
        dims.batch,
        dims.m,
        dims.n,
        dims.k,
        dims.b_f16,
    );
}

/// Whether a planned route points at a filled slot.
pub open spec fn plan_present(p: PipelineView, plan: OpPlan) -> bool {
    plan.kernel < KERNEL_COUNT && p.present[plan.kernel as int]
}

impl Executor {
    /// An executor over `pipeline`, which has to belong to `ctx`. At least
    /// one slot and one call per submission are kept.
    pub fn new_with_config(
        ctx: &VulkanContext,
        pipeline: MatmulPipeline,
        config: ExecutorConfig,
    ) -> (r: Result<Self, Error>)
        ensures
            r is Err <==> pipeline@.ctx.id != ctx.id,
            r matches Err(e) ==> e@ == refused(Refusal::ForeignPipeline),
            r matches Ok(x) ==> x@ == (ExecutorView {
                ctx: pipeline@.ctx,
                pipeline: pipeline@,
                n_slots: if config.n_slots == 0 { 1 } else { config.n_slots },
                max_calls_per_submit: if config.max_calls_per_submit == 0 {
                    1
                } else {
                    config.max_calls_per_submit
                },
                tune: config.tune,
            }),
    {
        if !pipeline.belongs_to(ctx) {
            return Err(Error::new(Refusal::ForeignPipeline));
        }
        Ok(
            Executor {
                pipeline,
                n_slots: if config.n_slots == 0 { 1 } else { config.n_slots },
                max_calls_per_submit: if config.max_calls_per_submit == 0 {
                    1
                } else {
                    config.max_calls_per_submit
                },
                tune: config.tune,
            },
        )
    }

    /// Whether the value of `ML_TUNE` asks for tuning: `1`, or `on` or `true`
    /// in any case.
    pub fn tune_requested(value: Option<&str>) -> (r: bool)
        ensures
            r == (value matches Some(v) && {
                let lower = crate::text::ascii_lower(v@);
                v@ == "1"@ || lower == "on"@ || lower == "true"@
            }),
    {
        match value {
            None => false,
            Some(v) => {
                let lower: String = crate::text::lowered(v);
                crate::text::same_text(v, "1") || crate::text::same_text(lower.as_str(), "on")
                    || crate::text::same_text(lower.as_str(), "true")
            }
        }
    }

    /// The device.
    pub fn context(&self) -> (r: &VulkanContext)
        ensures
            *r == self@.ctx,
            self@.pipeline.ctx == self@.ctx,
    {
        self.pipeline.context()
    }

    /// The kernels and the measured winners.
    pub fn pipeline(&self) -> (r: &MatmulPipeline)
        ensures
            r@ == self@.pipeline,
            r@.ctx == self@.ctx,
    {
        &self.pipeline
    }

    /// How many submissions may be in flight at once.
    pub fn n_slots(&self) -> (r: usize)
        ensures
            r == self@.n_slots,
    {
        self.n_slots
    }

    /// The most operations of one submission.
    pub fn max_calls_per_submit(&self) -> (r: u32)
        ensures
            r == self@.max_calls_per_submit,
    {
        self.max_calls_per_submit
    }

    /// Whether new shapes are measured.
    pub fn tune_enabled(&self) -> (r: bool)
        ensures
            r == self@.tune,
    {
        self.tune
    }

    /// Records a measured winner.
    pub fn record_tuned(
        &mut self,
        key: crate::pipeline::tuning::TuneKey,
        entry: crate::pipeline::tuning::TuneEntry,
    )
        requires
            entry.valid(),
        ensures
            final(self)@ == (ExecutorView {
                pipeline: PipelineView {
                    tuned: old(self)@.pipeline.tuned.insert(key, entry),
                    ..old(self)@.pipeline
                },
                ..old(self)@
            }),
    {
        self.pipeline.record_tuned(key, entry);
    }

    /// The route of a plain f32 shape.
    pub fn dispatch_info(&self, batch: u32, m: u32, n: u32, k: u32) -> (r: DispatchInfo)
        requires
            self@.pipeline.shape_ready(batch, m, n, k, false),
        ensures
            ({
                let plan = shape_plan(self@.pipeline, batch, m, n, k, false, true);
                let kernel = slot_kernel(plan.kernel);
                &&& r.split_k2_splits == plan.splitk2
                &&& plan.splitk2 is None ==> r.kernel == kernel.name && r.tile@ == seq![
                    kernel.tile_m,
                    kernel.tile_n,
                    kernel.tile_k,
                ]
                &&& plan.splitk2 is Some ==> r.kernel == (if stage1_large(m, n) {
                    "split_k2_m128n128"
                } else {
                    "split_k2_m64n64"
                }) && r.tile@ == seq![stage1_tile(m, n), stage1_tile(m, n), 32u32]
            }),
    {
        self.dispatch_info_for(batch, m, n, k, false)
    }

    /// [`Executor::dispatch_info`] with the storage of B explicit.
    pub fn dispatch_info_for(&self, batch: u32, m: u32, n: u32, k: u32, b_f16: bool) -> (r: DispatchInfo)
        requires
            self@.pipeline.shape_ready(batch, m, n, k, b_f16),
        ensures
            ({
                let plan = shape_plan(self@.pipeline, batch, m, n, k, b_f16, true);
                let kernel = slot_kernel(plan.kernel);
                &&& r.split_k2_splits == plan.splitk2
                &&& plan.splitk2 is None ==> r.kernel == kernel.name && r.tile@ == seq![
                    kernel.tile_m,
                    kernel.tile_n,
                    kernel.tile_k,
                ]
                &&& plan.splitk2 is Some ==> r.kernel == (if stage1_large(m, n) {
                    "split_k2_m128n128"
                } else {
                    "split_k2_m64n64"
                }) && r.tile@ == seq![stage1_tile(m, n), stage1_tile(m, n), 32u32]
            }),
    {
        let plan: OpPlan = self.plan_shape(batch, m, n, k, b_f16, true);
        match plan.splitk2 {
            Some(splits) => DispatchInfo::split_k2(m, n, splits),
            None => {
                let kernel: KernelSpec = self.pipeline.kernel_at(plan.kernel);
                let tile: [u32; 3] = [kernel.tile_m, kernel.tile_n, kernel.tile_k];
                assert(tile@ =~= seq![kernel.tile_m, kernel.tile_n, kernel.tile_k]);
                DispatchInfo { kernel: kernel.name, tile, split_k2_splits: None }
            }
        }
    }

    /// The route of a shape. `splitk2_eligible` says whether the form of the
    /// call allows split-K: a single plain non-accumulating operation, or
    /// one of a graph. A split count that comes out can be dispatched as it
    /// is.
    pub fn plan_shape(
        &self,
        batch: u32,
        m: u32,
        n: u32,
        k: u32,
        b_f16: bool,
        splitk2_eligible: bool,
    ) -> (r: OpPlan)
        requires
            self@.pipeline.shape_ready(batch, m, n, k, b_f16),
        ensures
            r == shape_plan(self@.pipeline, batch, m, n, k, b_f16, splitk2_eligible),
            plan_present(self@.pipeline, r),
            r.splitk2 matches Some(s) ==> 2 <= s <= 0xFFFF,
    {
        let (kernel, tuned) = self.pipeline.route(batch, m, n, k, b_f16);
        let ctx: &VulkanContext = self.pipeline.context();
        let splitk2: Option<u32> = if splitk2_eligible && !b_f16 && self.pipeline.is_auto()
            && ctx.buffer_device_address_enabled {
            let heuristic: Option<u32> = if tuned.is_none() && ctx.device_kind
                == DeviceKind::DiscreteGpu {
                heuristic_splits(batch, m, n, k)
            } else {
                None
            };
            match resolve_auto_splits(tuned, heuristic) {
                None => None,
                Some(splits) => {
                    let max: [u32; 3] = [ctx.max_groups_x, ctx.max_groups_y, ctx.max_groups_z];
                    if auto_route_fits(max, batch, m, n, k, splits) {
                        Some(splits)
                    } else {
                        None
                    }
                }
            }
        } else {
            None
        };
        OpPlan { kernel, splitk2 }
    }

    /// The route of a resolved matmul.
    pub fn plan_matmul(&self, dims: &ResolvedMatmul, splitk2_eligible: bool) -> (r: Result<
        OpPlan,
        Error,
    >)
        requires
            can_route(self@.pipeline, *dims),
        ensures
            outcome(r) == matmul_plan(self@.pipeline, *dims, splitk2_eligible),
            r matches Ok(plan) ==> plan_present(self@.pipeline, plan) && (plan.splitk2 matches Some(
                s,
            ) ==> 2 <= s <= 0xFFFF),
    {
        let ctx: &VulkanContext = self.pipeline.context();
        if dims.packed_b {
            let selection: KernelSelection = f16w_row_packed_selection(dims.k, dims.n);
            return Ok(
                OpPlan { kernel: self.pipeline.in_budget_index(selection), splitk2: None },
            );
        }
        if dims.a_f16 {
            if !(ctx.coopmat_enabled && ctx.f16_storage_enabled) {
                return Err(Error::new(Refusal::NoF16ActivationSupport));
            }
            let selection: KernelSelection = if coopmat_prefers_m64(dims.batch, dims.m, dims.n) {
                KernelSelection::F16wA16CoopmatM64
            } else {
                KernelSelection::F16wA16Coopmat
            };
            return Ok(
                OpPlan { kernel: self.pipeline.in_budget_index(selection), splitk2: None },
            );
        }
        Ok(
            self.plan_shape(
                dims.batch,
                dims.m,
                dims.n,
                dims.k,
                dims.b_f16,
                splitk2_eligible,
            ),
        )
    }

    /// Decides [`op_routes`].
    pub fn op_routes(&self, op: &MatmulOp<'_>, dims: &ResolvedMatmul) -> (r: bool)
        ensures
            r == op_routes(self@.pipeline, *op, *dims),
    {
        let p: &MatmulPipeline = &self.pipeline;
        if dims.packed_b {
            return p.has(f16w_row_packed_selection(dims.k, dims.n));
        }
        if dims.a_f16 {
            let ctx: &VulkanContext = p.context();
            if !(ctx.coopmat_enabled && ctx.f16_storage_enabled) {
                return true;
            }
            let selection: KernelSelection = if coopmat_prefers_m64(dims.batch, dims.m, dims.n) {
                KernelSelection::F16wA16CoopmatM64
            } else {
                KernelSelection::F16wA16Coopmat
            };
            if !p.has(selection) {
                return false;
            }
        } else if !p.shape_ready(dims.batch, dims.m, dims.n, dims.k, dims.b_f16) {
            return false;
        }
        if !p.is_auto() {
            return true;
        }
        let planned: OpPlan = match self.plan_matmul(dims, false) {
            Ok(plan) => plan,
            Err(_) => return true,
        };
        let mut kernel: usize = planned.kernel;
        if !op.epilogue.is_none() && !p.kernel_at(kernel).supports_epilogue() {
            if !p.epilogue_ready(dims.batch, dims.m, dims.n, dims.k, dims.b_f16) {
                return false;
            }
            kernel =
            p.epilogue_fallback_index(dims.batch, dims.m, dims.n, dims.k, dims.b_f16);
        }
        Executor::fusions_fit(op, &p.kernel_at(kernel)) || p.heuristic_ready(
            dims.batch,
            dims.m,
            dims.n,
            dims.k,
            dims.b_f16,
        )
    }

    fn fusions_fit(op: &MatmulOp<'_>, kernel: &KernelSpec) -> (r: bool)
        ensures
            r == fusions_fit(*op, *kernel),
    {
        (op.normed_a.is_none() || kernel.supports_normed_a()) && (op.store.is_none()
            || kernel.supports_store())
    }

    /// Reroutes an operation whose planned kernel does not implement what it
    /// fuses; see [`demoted_plan`].
    pub fn demote_for_op(&self, op: &MatmulOp<'_>, dims: &ResolvedMatmul, plan: OpPlan) -> (r: OpPlan)
        requires
            can_demote(self@.pipeline, *op, *dims, plan),
            plan_present(self@.pipeline, plan),
        ensures
            r == demoted_plan(self@.pipeline, *op, *dims, plan),
            plan_present(self@.pipeline, r),
    {
        if dims.packed_b {
            return plan;
        }
        let mut plan: OpPlan = plan;
        if !op.epilogue.is_none() && !self.pipeline.kernel_at(plan.kernel).supports_epilogue()
            && self.pipeline.is_auto() {
            plan =
            OpPlan {
                kernel: self.pipeline.epilogue_fallback_index(
                    dims.batch,
                    dims.m,
                    dims.n,
                    dims.k,
                    dims.b_f16,
                ),
                splitk2: None,
            };
        }
        if !Executor::fusions_fit(op, &self.pipeline.kernel_at(plan.kernel))
            && self.pipeline.is_auto() {
            let index: usize = self.pipeline.heuristic_kernel_index(
                dims.batch,
                dims.m,
                dims.n,
                dims.k,
                dims.b_f16,
            );
            if Executor::fusions_fit(op, &self.pipeline.kernel_at(index)) {
                plan = OpPlan { kernel: index, splitk2: None };
            }
        }
        plan
    }
}

} // verus!
