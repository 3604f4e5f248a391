//! A chain of GEMVs in one dispatch: dependent groups wait on a quorum inside
//! the kernel, independent neighbours share one space of tiles.

use crate::arith::{ceil_div, div_ceil};
use crate::context::VulkanContext;
use crate::dtype::{DType, Scalar};
use crate::error::{outcome, refused, Error, ErrorView, Refusal};
use crate::executor::elementwise::common::{ElementwiseDispatch, ElementwiseKernel};
use crate::executor::elementwise::pc::{GemvChainPc, GemvJob, PushBlock};
use crate::executor::hazard::{access_of, op_access, Access};
use crate::executor::plan::Executor;
use crate::executor::validation::op_context_result;
use crate::matmul::api::{Activation, EpilogueBinary, MatmulOp};
use crate::matmul::resolution::{resolve_op, resolve_unfused, ResolvedMatmul};
use crate::pipeline::routing::{f16w_row_uses_k16, row_uses_k16};
use crate::push::{encode, encodes, layout_bytes, Field};
use vstd::prelude::*;

verus! {

/// Most jobs of a chain.
pub const GEMV_CHAIN_MAX_JOBS: usize = 8;

/// Most workgroups of a chain; the tiles beyond them are looped over.
pub const GEMV_CHAIN_MAX_WG: u32 = 64;

/// Bytes before the first job of a table: the quorum's counters.
pub const GEMV_TABLE_HEADER: usize = 16;

/// Bytes of a job.
pub const GEMV_JOB_BYTES: usize = 80;

/// The A row is normalized first.
pub const GEMV_FLAG_NORM_A: u32 = 1;

/// A barrier follows the group that ends with this job.
pub const GEMV_FLAG_SYNC_AFTER: u32 = 0x100_0000;

/// Columns per thread of a job.
pub open spec fn chain_vcols(k: u32, n: u32) -> u32 {
    if row_uses_k16(k, n) {
        1
    } else {
        2
    }
}

/// Columns per thread of a job.
pub fn gemv_chain_vcols(k: u32, n: u32) -> (r: u32)
    ensures
        r == chain_vcols(k, n),
{
    if f16w_row_uses_k16(k, n) {
        1
    } else {
        2
    }
}

/// The first reason for which an operation cannot be a job.
pub open spec fn job_refusal(ctx: VulkanContext, op: MatmulOp, index: usize) -> Option<ErrorView> {
    if let Err(e) = op_context_result(ctx, op) {
        Some(e)
    } else if !(op.store is Absent) {
        Some(refused(Refusal::ChainStore { index }))
    } else if op.call.accumulate {
        Some(refused(Refusal::ChainAccumulate { index }))
    } else if op.call.a@.dtype != DType::F32 || op.call.c@.dtype != DType::F32 {
        Some(refused(Refusal::ChainActivations { index }))
    } else if op.call.b@.dtype != DType::F16 {
        Some(refused(Refusal::ChainWeights { index }))
    } else if op.packed_b {
        Some(refused(Refusal::ChainPacked { index }))
    } else if op.epilogue.bias is Some {
        Some(refused(Refusal::ChainBias { index }))
    } else {
        match resolve_unfused(op) {
            Err(e) => Some(e),
            Ok(dims) => if dims.batch != 1 || dims.m != 1 {
                Some(refused(Refusal::ChainRow { index, batch: dims.batch, m: dims.m }))
            } else if op.epilogue.activation == Activation::Relu {
                Some(refused(Refusal::ChainRelu { index }))
            } else if op.epilogue.activation == Activation::Gelu {
                Some(refused(Refusal::ChainGelu { index }))
            } else if op.normed_a is Some && op.epilogue.binary is AddScaled {
                Some(refused(Refusal::ChainNormedAddScaled { index }))
            } else {
                None
            },
        }
    }
}

/// The flags of a job: whether A is normalized, and the epilogue's binary
/// operation and activation in two bits each.
pub open spec fn job_flags(op: MatmulOp) -> u32 {
    ((if op.normed_a is Some { GEMV_FLAG_NORM_A as int } else { 0 }) + (match op.epilogue.binary {
        EpilogueBinary::Absent => 0int,
        EpilogueBinary::AddScaled { .. } => 0x100,
        EpilogueBinary::Mul { .. } => 0x200,
    }) + (if op.epilogue.activation == Activation::Silu { 0x2_0000int } else { 0 })) as u32
}

/// The job of an operation.
pub open spec fn job_of(op: MatmulOp) -> GemvJob {
    let dims = resolve_op(op)->Ok_0;
    GemvJob {
        n: dims.n,
        k: dims.k,
        flags: job_flags(op),
        vcols: chain_vcols(dims.k, dims.n),
        alpha: op.call.alpha,
        beta: match op.normed_a {
            Some((_, eps)) => eps,
            None => op.epilogue.beta_of(),
        },
        pad0: 0,
        pad1: 0,
        a_ptr: op.call.a@.buffer.address,
        b_ptr: op.call.b@.buffer.address,
        c_ptr: op.call.c@.buffer.address,
        d_ptr: match op.epilogue.d_of() {
            Some(d) => d@.buffer.address,
            None => 0,
        },
        bias_ptr: match op.normed_a {
            Some((weight, _)) => weight@.buffer.address,
            None => 0,
        },
        pad2: 0,
    }
}

/// Whether a job has to wait for one of the jobs before it.
pub open spec fn waits_for_earlier(ops: Seq<MatmulOp>, i: int) -> bool {
    exists|p: int| 0 <= p < i && op_access(ops[i]).conflicts(op_access(#[trigger] ops[p]))
}

/// A job with the barrier that the next one asks for.
pub open spec fn synced_job(ops: Seq<MatmulOp>, i: int) -> GemvJob {
    let job = job_of(ops[i]);
    if i + 1 < ops.len() && waits_for_earlier(ops, i + 1) {
        GemvJob { flags: (job.flags + GEMV_FLAG_SYNC_AFTER) as u32, ..job }
    } else {
        job
    }
}

/// The jobs of a chain.
pub open spec fn chain_jobs(ops: Seq<MatmulOp>) -> Seq<GemvJob> {
    Seq::new(ops.len(), |i: int| synced_job(ops, i))
}

/// Tiles of a job: thirty-two columns, or twice as many.
pub open spec fn job_tiles(job: GemvJob) -> int {
    ceil_div(job.n as int, if job.vcols == 2 { 64 } else { 32 })
}

/// The most tiles of a job among the first `upto`, and at least one.
pub open spec fn most_tiles(jobs: Seq<GemvJob>, upto: int) -> int
    decreases upto,
{
    if upto <= 0 {
        1
    } else {
        let before = most_tiles(jobs, upto - 1);
        let here = job_tiles(jobs[upto - 1]);
        if here > before {
            here
        } else {
            before
        }
    }
}

/// Workgroups of a chain.
pub open spec fn chain_groups(jobs: Seq<GemvJob>) -> int {
    let tiles = most_tiles(jobs, jobs.len() as int);
    if tiles < GEMV_CHAIN_MAX_WG {
        tiles
    } else {
        GEMV_CHAIN_MAX_WG as int
    }
}

/// The refusal of the first of the first `upto` jobs that is refused.
pub open spec fn jobs_refusal(ctx: VulkanContext, ops: Seq<MatmulOp>, upto: int) -> Option<ErrorView>
    decreases upto,
{
    if upto <= 0 {
        None
    } else {
        match jobs_refusal(ctx, ops, upto - 1) {
            Some(e) => Some(e),
            None => job_refusal(ctx, ops[upto - 1], (upto - 1) as usize),
        }
    }
}

/// The first check of a chain that fails.
pub open spec fn chain_refusal(ctx: VulkanContext, ops: Seq<MatmulOp>) -> Option<ErrorView> {
    if !ctx.memory_model_device_scope_enabled {
        Some(refused(Refusal::ChainNoScope))
    } else if ops.len() == 0 {
        Some(refused(Refusal::ChainEmpty))
    } else if ops.len() > GEMV_CHAIN_MAX_JOBS {
        Some(refused(Refusal::ChainTooLong { jobs: ops.len() as usize }))
    } else if !ctx.buffer_device_address_enabled {
        Some(refused(Refusal::ElementwiseNeedsAddresses))
    } else {
        jobs_refusal(ctx, ops, ops.len() as int)
    }
}

proof fn lemma_jobs_refusal_stays(ctx: VulkanContext, ops: Seq<MatmulOp>, i: int, j: int)
    requires
        i <= j,
    ensures
        jobs_refusal(ctx, ops, i) is Some ==> jobs_refusal(ctx, ops, j) == jobs_refusal(ctx, ops, i),
    decreases j - i,
{
    if i < j {
        lemma_jobs_refusal_stays(ctx, ops, i, j - 1);
    }
}

pub(crate) proof fn lemma_no_job_refused(ctx: VulkanContext, ops: Seq<MatmulOp>, upto: int)
    requires
        jobs_refusal(ctx, ops, upto) is None,
    ensures
        forall|i: int| 0 <= i < upto ==> job_refusal(ctx, #[trigger] ops[i], i as usize) is None,
    decreases upto,
{
    if upto > 0 {
        lemma_no_job_refused(ctx, ops, upto - 1);
    }
}

/// The operations of a chain that is not refused resolve.
pub proof fn lemma_jobs_resolve(ctx: VulkanContext, ops: Seq<MatmulOp>)
    requires
        chain_refusal(ctx, ops) is None,
    ensures
        forall|i: int| 0 <= i < ops.len() ==> resolve_op(#[trigger] ops[i]) is Ok,
{
    lemma_no_job_refused(ctx, ops, ops.len() as int);
    assert forall|i: int| 0 <= i < ops.len() implies resolve_op(#[trigger] ops[i]) is Ok by {
        assert(job_refusal(ctx, ops[i], i as usize) is None);
    }
}

/// A planned chain. Its job table goes into a device buffer of
/// [`GemvChainPlan::table_bytes`], whose address the dispatch carries.
pub struct GemvChainPlan {
    pub jobs: Vec<GemvJob>,
    pub n_wg: u32,
}

/// The fields of the jobs, one behind the other.
pub open spec fn job_fields(jobs: Seq<GemvJob>) -> Seq<Field>
    decreases jobs.len(),
{
    if jobs.len() == 0 {
        Seq::empty()
    } else {
        job_fields(jobs.drop_last()) + jobs.last().layout()
    }
}

/// The fields of a job table: four zeroed counters, then the jobs.
pub open spec fn table_fields(jobs: Seq<GemvJob>) -> Seq<Field> {
    Seq::new(4, |i: int| Field::Word(0)) + job_fields(jobs)
}

proof fn lemma_layout_concat(a: Seq<Field>, b: Seq<Field>)
    ensures
        layout_bytes(a + b) == layout_bytes(a) + layout_bytes(b),
    decreases b.len(),
{
    if b.len() == 0 {
        assert(a + b =~= a);
    } else {
        assert((a + b).drop_last() =~= a + b.drop_last());
        lemma_layout_concat(a, b.drop_last());
    }
}

impl GemvChainPlan {
    /// The job table as the kernel reads it: sixteen zero bytes for the
    /// counters, then the jobs.
    pub fn table(&self) -> (r: Vec<u8>)
        requires
            self.jobs@.len() <= GEMV_CHAIN_MAX_JOBS,
        ensures
            encodes(r@, table_fields(self.jobs@)),
            r@.len() == GEMV_TABLE_HEADER + GEMV_JOB_BYTES * self.jobs@.len(),
    {
        let mut fields: Vec<Field> = vec![
            Field::Word(0),
            Field::Word(0),
            Field::Word(0),
            Field::Word(0),
        ];
        let ghost header = fields@;
        let mut j: usize = 0;
        assert(self.jobs@.take(0) =~= Seq::empty());
        assert(fields@ =~= header + job_fields(self.jobs@.take(0)));
        proof {
            reveal_with_fuel(layout_bytes, 5);
        }
        while j < self.jobs.len()
            invariant
                j <= self.jobs@.len(),
                fields@ == header + job_fields(self.jobs@.take(j as int)),
                layout_bytes(fields@) == GEMV_TABLE_HEADER + GEMV_JOB_BYTES * j,
            decreases self.jobs.len() - j,
        {
            let piece: Vec<Field> = self.jobs[j].fields();
            let ghost before = fields@;
            let mut k: usize = 0;
            while k < piece.len()
                invariant
                    k <= piece@.len(),
                    fields@ =~= before + piece@.take(k as int),
                decreases piece.len() - k,
            {
                fields.push(piece[k]);
                k = k + 1;
            }
            proof {
                let next = self.jobs@.take(j + 1);
                assert(piece@.take(k as int) =~= piece@);
                assert(next.drop_last() =~= self.jobs@.take(j as int));
                assert(next.last() == self.jobs@[j as int]);
                assert(fields@ =~= header + job_fields(next));
                lemma_layout_concat(before, piece@);
            }
            j = j + 1;
        }
        assert(self.jobs@.take(j as int) =~= self.jobs@);
        assert(header =~= Seq::new(4, |i: int| Field::Word(0)));
        encode(&fields)
    }

    /// Bytes of the job table.
    pub fn table_bytes(&self) -> (r: u64)
        requires
            self.jobs@.len() <= GEMV_CHAIN_MAX_JOBS,
        ensures
            r == GEMV_TABLE_HEADER + GEMV_JOB_BYTES * self.jobs@.len(),
    {
        16 + 80 * self.jobs.len() as u64
    }

    /// The dispatch of the chain once its table is in a buffer at `address`.
    pub fn dispatch(&self, address: u64) -> (r: ElementwiseDispatch)
        requires
            self.jobs@.len() <= GEMV_CHAIN_MAX_JOBS,
            address + GEMV_TABLE_HEADER <= u64::MAX,
        ensures
            r == chain_dispatch(self.jobs@.len() as u32, self.n_wg, address),
    {
        ElementwiseDispatch {
            kernel: ElementwiseKernel::GemvChain,
            push: PushBlock::GemvChain(
                GemvChainPc {
                    jobs_ptr: address + 16,
                    sync_ptr: address,
                    n_jobs: self.jobs.len() as u32,
                    n_wg: self.n_wg,
                },
            ),
            groups_x: self.n_wg,
            groups_y: 1,
        }
    }
}

/// The dispatch of a chain whose table is in a buffer at `address`.
pub open spec fn chain_dispatch(n_jobs: u32, n_wg: u32, address: u64) -> ElementwiseDispatch {
    ElementwiseDispatch {
        kernel: ElementwiseKernel::GemvChain,
        push: PushBlock::GemvChain(
            GemvChainPc {
                jobs_ptr: (address + GEMV_TABLE_HEADER) as u64,
                sync_ptr: address,
                n_jobs,
                n_wg,
            },
        ),
        groups_x: n_wg,
        groups_y: 1,
    }
}

/// Whether the last of some jobs has to wait for one of those before it.
pub fn gemv_jobs_hazard(ops: &[MatmulOp<'_>], i: usize) -> (r: bool)
    requires
        i < ops@.len(),
    ensures
        r == waits_for_earlier(ops@, i as int),
{
    let next: Access = access_of(&ops[i]);
    let mut p: usize = 0;
    while p < i
        invariant
            p <= i,
            i < ops@.len(),
            next@ == op_access(ops@[i as int]),
            forall|q: int| 0 <= q < p ==> !next@.conflicts(op_access(#[trigger] ops@[q])),
        decreases i - p,
    {
        let earlier: Access = access_of(&ops[p]);
        if next.hazard_with(&earlier) {
            assert(op_access(ops@[i as int]).conflicts(op_access(ops@[p as int])));
            return true;
        }
        p = p + 1;
    }
    false
}

impl Executor {
    fn pack_gemv_job(&self, op: &MatmulOp<'_>, index: usize) -> (r: Result<GemvJob, Error>)
        ensures
            outcome(r) == (match job_refusal(self@.ctx, *op, index) {
                Some(e) => Err(e),
                None => Ok(job_of(*op)),
            }),
    {
        if let Err(e) = self.validate_op_context(op) {
            return Err(e);
        }
        if !op.store.is_none() {
            return Err(Error::new(Refusal::ChainStore { index }));
        }
        if op.call.accumulate {
            return Err(Error::new(Refusal::ChainAccumulate { index }));
        }
        if op.call.a.dtype() != DType::F32 || op.call.c.dtype() != DType::F32 {
            return Err(Error::new(Refusal::ChainActivations { index }));
        }
        if op.call.b.dtype() != DType::F16 {
            return Err(Error::new(Refusal::ChainWeights { index }));
        }
        if op.packed_b {
            return Err(Error::new(Refusal::ChainPacked { index }));
        }
        if op.epilogue.bias.is_some() {
            return Err(Error::new(Refusal::ChainBias { index }));
        }
        let dims: ResolvedMatmul = match ResolvedMatmul::from_op_unfused(op) {
            Ok(dims) => dims,
            Err(e) => return Err(e),
        };
        if dims.batch != 1 || dims.m != 1 {
            return Err(
                Error::new(Refusal::ChainRow { index, batch: dims.batch, m: dims.m }),
            );
        }
        let silu: u32 = match op.epilogue.activation {
            Activation::Absent => 0,
            Activation::Silu => 0x2_0000,
            Activation::Relu => return Err(Error::new(Refusal::ChainRelu { index })),
            Activation::Gelu => return Err(Error::new(Refusal::ChainGelu { index })),
        };
        let binary: u32 = match op.epilogue.binary {
            EpilogueBinary::Absent => 0,
            EpilogueBinary::AddScaled { .. } => {
                if op.normed_a.is_some() {
                    return Err(Error::new(Refusal::ChainNormedAddScaled { index }));
                }
                0x100
            }
            EpilogueBinary::Mul { .. } => 0x200,
        };
        let norm: u32 = if op.normed_a.is_some() { GEMV_FLAG_NORM_A } else { 0 };
        let beta: Scalar = match op.normed_a {
            Some((_, eps)) => eps,
            None => op.epilogue.beta(),
        };
        let d_ptr: u64 = match op.epilogue.d_tensor() {
            Some(d) => d.device_address(),
            None => 0,
        };
        let bias_ptr: u64 = match op.normed_a {
            Some((weight, _)) => weight.device_address(),
            None => 0,
        };
        Ok(
            GemvJob {
                n: dims.n,
                k: dims.k,
                flags: norm + binary + silu,
                vcols: gemv_chain_vcols(dims.k, dims.n),
                alpha: op.call.alpha,
                beta,
                pad0: 0,
                pad1: 0,
                a_ptr: op.call.a.device_address(),
                b_ptr: op.call.b.device_address(),
                c_ptr: op.call.c.device_address(),
                d_ptr,
                bias_ptr,
                pad2: 0,
            },
        )
    }

    /// Plans a chain of up to [`GEMV_CHAIN_MAX_JOBS`] GEMVs with f16 weights. A
    /// job that has to wait for an earlier one is preceded by a barrier inside
    /// the kernel.
    pub fn plan_gemv_chain(&self, ops: &[MatmulOp<'_>]) -> (r: Result<GemvChainPlan, Error>)
        ensures
            match chain_refusal(self@.ctx, ops@) {
                Some(e) => r is Err && r->Err_0@ == e,
                None => {
                    &&& r is Ok
                    &&& r->Ok_0.jobs@ == chain_jobs(ops@)
                    &&& r->Ok_0.n_wg == chain_groups(chain_jobs(ops@))
                    &&& 1 <= ops@.len() <= GEMV_CHAIN_MAX_JOBS
                },
            },
    {
        let ctx: &VulkanContext = self.context();
        if !ctx.memory_model_device_scope_enabled {
            return Err(Error::new(Refusal::ChainNoScope));
        }
        if ops.len() == 0 {
            return Err(Error::new(Refusal::ChainEmpty));
        }
        if ops.len() > GEMV_CHAIN_MAX_JOBS {
            return Err(Error::new(Refusal::ChainTooLong { jobs: ops.len() }));
        }
        if !ctx.buffer_device_address_enabled {
            return Err(Error::new(Refusal::ElementwiseNeedsAddresses));
        }
        let mut jobs: Vec<GemvJob> = Vec::new();
        let mut i: usize = 0;
        while i < ops.len()
            invariant
                i <= ops@.len(),
                1 <= ops@.len() <= GEMV_CHAIN_MAX_JOBS,
                self@.ctx.memory_model_device_scope_enabled,
                self@.ctx.buffer_device_address_enabled,
                jobs@.len() == i,
                jobs_refusal(self@.ctx, ops@, i as int) is None,
                forall|j: int| 0 <= j < i ==> #[trigger] jobs@[j] == synced_job(ops@, j),
            decreases ops.len() - i,
        {
            proof {
                lemma_jobs_refusal_stays(self@.ctx, ops@, i + 1, ops@.len() as int);
            }
            let mut job: GemvJob = match self.pack_gemv_job(&ops[i], i) {
                Ok(job) => job,
                Err(e) => return Err(e),
            };
            if i + 1 < ops.len() && gemv_jobs_hazard(ops, i + 1) {
                job.flags = job.flags + GEMV_FLAG_SYNC_AFTER;
            }
            jobs.push(job);
            i = i + 1;
        }
        assert(jobs@ =~= chain_jobs(ops@));
        let mut tiles: u32 = 1;
        let mut j: usize = 0;
        while j < jobs.len()
            invariant
                j <= jobs@.len(),
                tiles == most_tiles(jobs@, j as int),
            decreases jobs.len() - j,
        {
            let width: u32 = if jobs[j].vcols == 2 { 64 } else { 32 };
            let here: u32 = div_ceil(jobs[j].n, width);
            if here > tiles {
                tiles = here;
            }
            j = j + 1;
        }
        let n_wg: u32 = if tiles < GEMV_CHAIN_MAX_WG { tiles } else { GEMV_CHAIN_MAX_WG };
        Ok(GemvChainPlan { jobs, n_wg })
    }
}

/// A job that depends on an earlier one of its chain is preceded by a
/// barrier: the job just before it asks for one.
pub proof fn dependent_jobs_are_separated(ops: Seq<MatmulOp>, i: int, j: int)
    requires
        0 <= i < j < ops.len(),
        op_access(ops[j]).conflicts(op_access(ops[i])),
    ensures
        chain_jobs(ops)[j - 1].flags == job_flags(ops[j - 1]) + GEMV_FLAG_SYNC_AFTER,
{
    assert(waits_for_earlier(ops, j));
    assert(chain_jobs(ops)[j - 1] == synced_job(ops, j - 1));
}

/// A chain has at least one workgroup and no more than it may.
pub proof fn chain_grid_is_bounded(jobs: Seq<GemvJob>)
    ensures
        1 <= chain_groups(jobs) <= GEMV_CHAIN_MAX_WG,
{
    lemma_most_tiles(jobs, jobs.len() as int);
}

proof fn lemma_most_tiles(jobs: Seq<GemvJob>, upto: int)
    ensures
        most_tiles(jobs, upto) >= 1,
    decreases upto,
{
    if upto > 0 {
        lemma_most_tiles(jobs, upto - 1);
    }
}

} // verus!
