//! Recording: from routed operations to dispatches and barriers.

use crate::arith::{ceil_div, div_ceil};
use crate::context::VulkanContext;
use crate::dtype::DType;
use crate::error::{outcome, refused, refused_name, Error, ErrorView, Refusal};
use crate::executor::plan::{plan_present, slot_kernel, Executor, OpPlan};
use crate::matmul::api::{Epilogue, MatmulOp};
use crate::matmul::resolution::ResolvedMatmul;
use crate::pipeline::abi::{EpilogueKey, KernelVariant, MatmulPushConstants, MATMUL_FLAG_NORM_A};
use crate::pipeline::catalog::{
    name_a_f16, name_aligned, name_packed, name_row, name_weights_f16, KernelSpec, KERNEL_COUNT,
};
use crate::pipeline::registry::PipelineId;
use crate::text::{same_text, text_ends_with};
use vstd::prelude::*;

verus! {

/// Whether `step` divides `value`; zero divides only itself.
pub open spec fn divides(step: u32, value: u32) -> bool {
    if step == 0 {
        value == 0
    } else {
        value % step == 0
    }
}

fn is_multiple(value: u32, step: u32) -> (r: bool)
    ensures
        r == divides(step, value),
{
    if step == 0 {
        value == 0
    } else {
        value % step == 0
    }
}

/// The extents that a kernel without edge handling asks for: its tile, and
/// for the kernel that takes K in exact pairs of strips twice its K tile.
pub open spec fn required_tile(name: Seq<char>, tile: Seq<u32>) -> Seq<u32> {
    if name == "v3_128x128_bk8_static"@ {
        seq![tile[0], tile[1], (2 * tile[2]) as u32]
    } else {
        tile
    }
}

/// A kernel without edge handling only takes shapes that its tiles cover
/// exactly.
pub open spec fn alignment_result(name: Seq<char>, tile: Seq<u32>, shape: Seq<u32>) -> Result<
    (),
    ErrorView,
> {
    let required = required_tile(name, tile);
    if (name_aligned(name) || name == "v3_128x128_bk8_static"@) && (!divides(required[0], shape[0])
        || !divides(required[1], shape[1]) || !divides(required[2], shape[2])) {
        Err(
            refused_name(
                Refusal::Misaligned {
                    tile_m: required[0],
                    tile_n: required[1],
                    tile_k: required[2],
                    m: shape[0],
                    n: shape[1],
                    k: shape[2],
                },
                name,
            ),
        )
    } else {
        Ok(())
    }
}

/// A kernel without edge handling only takes shapes that its tiles cover
/// exactly.
pub fn ensure_kernel_alignment(kernel_name: &str, tile: [u32; 3], shape: [u32; 3]) -> (r: Result<
    (),
    Error,
>)
    requires
        kernel_name@ == "v3_128x128_bk8_static"@ ==> tile@[2] <= 0x7FFF_FFFF,
    ensures
        outcome(r) == alignment_result(kernel_name@, tile@, shape@),
{
    let paired: bool = same_text(kernel_name, "v3_128x128_bk8_static");
    let tile_m: u32 = tile[0];
    let tile_n: u32 = tile[1];
    let tile_k: u32 = if paired { 2 * tile[2] } else { tile[2] };
    assert(required_tile(kernel_name@, tile@)[0] == tile_m && required_tile(kernel_name@, tile@)[1]
        == tile_n && required_tile(kernel_name@, tile@)[2] == tile_k);
    let strict: bool = text_ends_with(kernel_name, "_aligned") || paired;
    if strict && (!is_multiple(shape[0], tile_m) || !is_multiple(shape[1], tile_n) || !is_multiple(
        shape[2],
        tile_k,
    )) {
        return Err(
            Error::with_name(
                Refusal::Misaligned {
                    tile_m,
                    tile_n,
                    tile_k,
                    m: shape[0],
                    n: shape[1],
                    k: shape[2],
                },
                kernel_name,
            ),
        );
    }
    Ok(())
}

/// One matmul dispatch.
#[derive(Copy, Clone, Debug, PartialEq, Eq, Structural)]
pub struct MatmulDispatch {
    pub pipeline: PipelineId,
    /// Whether A, B and C are bound as descriptors.
    pub uses_descriptors: bool,
    pub push: MatmulPushConstants,
    pub gx: u32,
    pub gy: u32,
    pub gz: u32,
}

/// The specialization that a call allows. A K tile of one divides every K
/// and the kernels that have it do not look at the flag, so it stays clear.
pub open spec fn variant_of(op: MatmulOp, dims: ResolvedMatmul, kernel: KernelSpec) -> KernelVariant {
    KernelVariant {
        accumulate: op.call.accumulate,
        alpha_is_one: op.call.alpha == crate::dtype::Scalar::one(),
        interior_only: divides(kernel.tile_m, dims.m) && divides(kernel.tile_n, dims.n),
        k_multiple: kernel.tile_k > 1 && divides(kernel.tile_k, dims.k),
    }
}

/// What of a call's addresses a dispatch carries: all of them where
/// addresses are enabled, else none.
pub open spec fn address(ctx: VulkanContext, addr: u64) -> u64 {
    if ctx.buffer_device_address_enabled {
        addr
    } else {
        0
    }
}

/// The push constants of an operation: the call's, then the epilogue's
/// operands, then the fused norm in the bias slot, then the fused store.
pub open spec fn push_of_op(ctx: VulkanContext, op: MatmulOp, dims: ResolvedMatmul) -> MatmulPushConstants {
    let base = dims.push_of(
        if op.call.accumulate { 1 } else { 0 },
        op.call.alpha,
        address(ctx, op.call.a@.buffer.address),
        address(ctx, op.call.b@.buffer.address),
        address(ctx, op.call.c@.buffer.address),
    );
    let fused = MatmulPushConstants {
        bias_ptr: match op.epilogue.bias {
            Some(bias) => bias@.buffer.address,
            None => 0,
        },
        bias_batch_stride: match op.epilogue.bias {
            Some(bias) => if bias@.len() == dims.n {
                0
            } else {
                dims.n
            },
            None => 0,
        },
        d_ptr: match op.epilogue.d_of() {
            Some(d) => d@.buffer.address,
            None => 0,
        },
        beta: op.epilogue.beta_of(),
        ..base
    };
    let normed = match op.normed_a {
        Some((weight, eps)) => MatmulPushConstants {
            flags: (fused.flags + MATMUL_FLAG_NORM_A) as u32,
            bias_ptr: weight@.buffer.address,
            beta: eps,
            ..fused
        },
        None => fused,
    };
    let desc = op.store.desc_of();
    MatmulPushConstants {
        store_pos_base: desc.pos_base,
        store_pos_scale: desc.pos_scale,
        store_stride_head: desc.stride_head,
        store_stride_dim: desc.stride_dim,
        store_head_dim: desc.head_dim,
        store_pos_ptr: desc.pos_addr,
        store_table_ptr: match op.store.table_of() {
            Some(table) => table@.buffer.address,
            None => 0,
        },
        store_dst_ptr: match op.store.dst_of() {
            Some(dst) => dst@.buffer.address,
            None => 0,
        },
        ..normed
    }
}

/// The specialization of an operation's epilogue and store.
pub open spec fn key_of_op(op: MatmulOp) -> EpilogueKey {
    EpilogueKey {
        store_mode: op.store.mode_of(),
        store_f16: match op.store.dst_of() {
            Some(dst) => dst@.dtype == DType::F16,
            None => false,
        },
        ..op.epilogue.key_of()
    }
}

/// How a flag of half-precision storage reads as a type.
pub open spec fn storage(half: bool) -> DType {
    if half {
        DType::F16
    } else {
        DType::F32
    }
}

fn storage_type(half: bool) -> (r: DType)
    ensures
        r == storage(half),
{
    if half {
        DType::F16
    } else {
        DType::F32
    }
}

/// The first reason for which a kernel cannot carry an operation out.
pub open spec fn dispatch_refusal(
    ctx: VulkanContext,
    op: MatmulOp,
    dims: ResolvedMatmul,
    kernel: KernelSpec,
) -> Option<ErrorView> {
    let name = kernel.name@;
    let alignment = alignment_result(
        name,
        seq![kernel.tile_m, kernel.tile_n, kernel.tile_k],
        seq![dims.m, dims.n, dims.k],
    );
    let gx = ceil_div(dims.n as int, kernel.tile_n as int) as u32;
    let gy = ceil_div(dims.m as int, kernel.tile_m as int) as u32;
    if let Err(e) = alignment {
        Some(e)
    } else if name_weights_f16(name) != dims.b_f16 {
        Some(
            refused_name(
                Refusal::WeightStorage {
                    kernel: storage(name_weights_f16(name)),
                    b: storage(dims.b_f16),
                },
                name,
            ),
        )
    } else if name_a_f16(name) != dims.a_f16 {
        Some(
            refused_name(
                Refusal::ActivationStorage {
                    kernel: storage(name_a_f16(name)),
                    a: storage(dims.a_f16),
                },
                name,
            ),
        )
    } else if name_packed(name) != dims.packed_b {
        Some(refused_name(Refusal::PackedMismatch, name))
    } else if dims.b_f16 && !ctx.buffer_device_address_enabled {
        Some(refused(Refusal::F16NeedsAddresses))
    } else if op.epilogue != Epilogue::plain() && !ctx.buffer_device_address_enabled {
        Some(refused(Refusal::EpilogueNeedsAddresses))
    } else if op.epilogue != Epilogue::plain() && !kernel.fuses_epilogue() {
        Some(refused_name(Refusal::EpilogueUnsupported, name))
    } else if op.normed_a is Some && !name_row(name) {
        Some(refused_name(Refusal::NormedAUnsupported { m: dims.m }, name))
    } else if !(op.store is Absent) && !kernel.fuses_store() {
        Some(refused_name(Refusal::StoreUnsupported { m: dims.m }, name))
    } else if !ctx.grid_fits(gx as int, gy as int, dims.batch as int) {
        Some(
            refused(
                Refusal::MatmulGrid {
                    gx,
                    gy,
                    gz: dims.batch,
                    m: dims.m,
                    n: dims.n,
                    k: dims.k,
                    batch: dims.batch,
                    max_x: ctx.max_groups_x,
                    max_y: ctx.max_groups_y,
                    max_z: ctx.max_groups_z,
                },
            ),
        )
    } else {
        None
    }
}

/// The dispatch of an operation by the kernel of a slot, or why the kernel
/// cannot carry it out.
pub open spec fn dispatch_result(
    ctx: VulkanContext,
    op: MatmulOp,
    dims: ResolvedMatmul,
    slot: usize,
) -> Result<MatmulDispatch, ErrorView> {
    let kernel = slot_kernel(slot);
    match dispatch_refusal(ctx, op, dims, kernel) {
        Some(e) => Err(e),
        None => Ok(
            MatmulDispatch {
                pipeline: PipelineId {
                    kernel: slot,
                    variant: variant_of(op, dims, kernel),
                    epilogue: key_of_op(op),
                },
                uses_descriptors: kernel.uses_descriptors,
                push: push_of_op(ctx, op, dims),
                gx: ceil_div(dims.n as int, kernel.tile_n as int) as u32,
                gy: ceil_div(dims.m as int, kernel.tile_m as int) as u32,
                gz: dims.batch,
            },
        ),
    }
}

/// A dispatch, and whether its pipeline has to be bound first.
#[derive(Copy, Clone, Debug, PartialEq, Eq, Structural)]
pub struct MatmulCommand {
    pub bind: bool,
    pub dispatch: MatmulDispatch,
}

fn push_constants_of(ctx: &VulkanContext, op: &MatmulOp<'_>, dims: &ResolvedMatmul) -> (r:
    MatmulPushConstants)
    ensures
        r == push_of_op(*ctx, *op, *dims),
{
    let addressed: bool = ctx.buffer_device_address_enabled;
    let a_ptr: u64 = if addressed { op.call.a.device_address() } else { 0 };
    let b_ptr: u64 = if addressed { op.call.b.device_address() } else { 0 };
    let c_ptr: u64 = if addressed { op.call.c.device_address() } else { 0 };
    let mut pc: MatmulPushConstants = dims.push_constants(
        op.call.alpha,
        op.call.accumulate,
        a_ptr,
        b_ptr,
        c_ptr,
    );
    if let Some(bias) = op.epilogue.bias {
        pc.bias_ptr = bias.device_address();
        pc.bias_batch_stride = if bias.len() == dims.n as u64 { 0 } else { dims.n };
    }
    if let Some(d) = op.epilogue.d_tensor() {
        pc.d_ptr = d.device_address();
    }
    pc.beta = op.epilogue.beta();
    if let Some((weight, eps)) = op.normed_a {
        pc.flags = pc.flags + MATMUL_FLAG_NORM_A;
        pc.bias_ptr = weight.device_address();
        pc.beta = eps;
    }
    let desc = op.store.desc();
    pc.store_pos_base = desc.pos_base;
    pc.store_pos_scale = desc.pos_scale;
    pc.store_stride_head = desc.stride_head;
    pc.store_stride_dim = desc.stride_dim;
    pc.store_head_dim = desc.head_dim;
    pc.store_pos_ptr = desc.pos_addr;
    if let Some(table) = op.store.table() {
        pc.store_table_ptr = table.device_address();
    }
    if let Some(dst) = op.store.dst() {
        pc.store_dst_ptr = dst.device_address();
    }
    pc
}

fn epilogue_key_of(op: &MatmulOp<'_>) -> (r: EpilogueKey)
    ensures
        r == key_of_op(*op),
{
    let mut key: EpilogueKey = op.epilogue.key();
    if let Some(dst) = op.store.dst() {
        key.store_f16 = dst.dtype() == DType::F16;
    }
    key.store_mode = op.store.mode();
    key
}

fn refuse_dispatch(
    ctx: &VulkanContext,
    op: &MatmulOp<'_>,
    dims: &ResolvedMatmul,
    kernel: &KernelSpec,
) -> (r: Result<(), Error>)
    requires
        kernel.tile_m > 0,
        kernel.tile_n > 0,
        0 < kernel.tile_k <= 64,
    ensures
        outcome(r) == (match dispatch_refusal(*ctx, *op, *dims, *kernel) {
            Some(e) => Err(e),
            None => Ok(()),
        }),
{
    let tile: [u32; 3] = [kernel.tile_m, kernel.tile_n, kernel.tile_k];
    let shape: [u32; 3] = [dims.m, dims.n, dims.k];
    assert(tile@ =~= seq![kernel.tile_m, kernel.tile_n, kernel.tile_k]);
    assert(shape@ =~= seq![dims.m, dims.n, dims.k]);
    if let Err(e) = ensure_kernel_alignment(kernel.name, tile, shape) {
        return Err(e);
    }
    let weights_f16: bool = kernel.weights_f16();
    if weights_f16 != dims.b_f16 {
        return Err(
            Error::with_name(
                Refusal::WeightStorage {
                    kernel: storage_type(weights_f16),
                    b: storage_type(dims.b_f16),
                },
                kernel.name,
            ),
        );
    }
    let a_f16: bool = kernel.a_f16();
    if a_f16 != dims.a_f16 {
        return Err(
            Error::with_name(
                Refusal::ActivationStorage {
                    kernel: storage_type(a_f16),
                    a: storage_type(dims.a_f16),
                },
                kernel.name,
            ),
        );
    }
    if kernel.packed() != dims.packed_b {
        return Err(Error::with_name(Refusal::PackedMismatch, kernel.name));
    }
    if dims.b_f16 && !ctx.buffer_device_address_enabled {
        return Err(Error::new(Refusal::F16NeedsAddresses));
    }
    if !op.epilogue.is_none() {
        if !ctx.buffer_device_address_enabled {
            return Err(Error::new(Refusal::EpilogueNeedsAddresses));
        }
        if !kernel.supports_epilogue() {
            return Err(Error::with_name(Refusal::EpilogueUnsupported, kernel.name));
        }
    }
    if op.normed_a.is_some() && !kernel.supports_normed_a() {
        return Err(Error::with_name(Refusal::NormedAUnsupported { m: dims.m }, kernel.name));
    }
    if !op.store.is_none() && !kernel.supports_store() {
        return Err(Error::with_name(Refusal::StoreUnsupported { m: dims.m }, kernel.name));
    }
    let gx: u32 = div_ceil(dims.n, kernel.tile_n);
    let gy: u32 = div_ceil(dims.m, kernel.tile_m);
    if gx > ctx.max_groups_x || gy > ctx.max_groups_y || dims.batch > ctx.max_groups_z {
        return Err(
            Error::new(
                Refusal::MatmulGrid {
                    gx,
                    gy,
                    gz: dims.batch,
                    m: dims.m,
                    n: dims.n,
                    k: dims.k,
                    batch: dims.batch,
                    max_x: ctx.max_groups_x,
                    max_y: ctx.max_groups_y,
                    max_z: ctx.max_groups_z,
                },
            ),
        );
    }
    Ok(())
}

impl Executor {
    /// The dispatch of an operation by an explicitly chosen kernel. The
    /// regular paths choose it by the operation's route; measuring forces
    /// each candidate in turn.
    pub fn record_one_matmul(
        &self,
        op: &MatmulOp<'_>,
        dims: &ResolvedMatmul,
        slot: usize,
        bound: &mut Option<PipelineId>,
    ) -> (r: Result<MatmulCommand, Error>)
        requires
            slot < KERNEL_COUNT,
            self@.pipeline.present[slot as int],
        ensures
            match dispatch_result(self@.ctx, *op, *dims, slot) {
                Ok(dispatch) => {
                    &&& r is Ok
                    &&& r->Ok_0 == (MatmulCommand {
                        bind: *old(bound) != Some(dispatch.pipeline),
                        dispatch,
                    })
                    &&& *final(bound) == Some(dispatch.pipeline)
                },
                Err(e) => r is Err && r->Err_0@ == e && *final(bound) == *old(bound),
            },
    {
        let ctx: &VulkanContext = self.context();
        let kernel: KernelSpec = self.pipeline().kernel_at(slot);
        if let Err(e) = refuse_dispatch(ctx, op, dims, &kernel) {
            return Err(e);
        }
        let variant: KernelVariant = KernelVariant {
            accumulate: op.call.accumulate,
            alpha_is_one: op.call.alpha.is_one(),
            interior_only: is_multiple(dims.m, kernel.tile_m) && is_multiple(
                dims.n,
                kernel.tile_n,
            ),
            k_multiple: kernel.tile_k > 1 && is_multiple(dims.k, kernel.tile_k),
        };
        let pipeline: PipelineId = self.pipeline().pipeline_for_epilogue(
            slot,
            variant,
            epilogue_key_of(op),
        );
        let bind: bool = match *bound {
            Some(current) => current != pipeline,
            None => true,
        };
        *bound = Some(pipeline);
        Ok(
            MatmulCommand {
                bind,
                dispatch: MatmulDispatch {
                    pipeline,
                    uses_descriptors: kernel.uses_descriptors,
                    push: push_constants_of(ctx, op, dims),
                    gx: div_ceil(dims.n, kernel.tile_n),
                    gy: div_ceil(dims.m, kernel.tile_m),
                    gz: dims.batch,
                },
            },
        )
    }
}

/// A dispatch of an aligned-only kernel covers its output exactly.
pub proof fn aligned_dispatch_covers_exactly(
    ctx: VulkanContext,
    op: MatmulOp,
    dims: ResolvedMatmul,
    slot: usize,
)
    requires
        slot < KERNEL_COUNT,
        dispatch_result(ctx, op, dims, slot) is Ok,
    ensures
        name_aligned(slot_kernel(slot).name@) ==> {
            let d = dispatch_result(ctx, op, dims, slot)->Ok_0;
            &&& d.pipeline.variant.interior_only
            &&& d.gx * slot_kernel(slot).tile_n == dims.n
            &&& d.gy * slot_kernel(slot).tile_m == dims.m
        },
{
    let kernel = slot_kernel(slot);
    if name_aligned(kernel.name@) {
        let tile = seq![kernel.tile_m, kernel.tile_n, kernel.tile_k];
        assert(required_tile(kernel.name@, tile)[0] == kernel.tile_m);
        assert(required_tile(kernel.name@, tile)[1] == kernel.tile_n);
        crate::arith::lemma_ceil_div(dims.n as int, kernel.tile_n as int);
        crate::arith::lemma_ceil_div(dims.m as int, kernel.tile_m as int);
        vstd::arithmetic::div_mod::lemma_fundamental_div_mod(dims.n as int, kernel.tile_n as int);
        vstd::arithmetic::div_mod::lemma_fundamental_div_mod(dims.m as int, kernel.tile_m as int);
        assert((dims.n as int / kernel.tile_n as int) * kernel.tile_n == kernel.tile_n * (dims.n
            as int / kernel.tile_n as int)) by (nonlinear_arith);
        assert((dims.m as int / kernel.tile_m as int) * kernel.tile_m == kernel.tile_m * (dims.m
            as int / kernel.tile_m as int)) by (nonlinear_arith);
    }
}

/// A dispatch that is recorded reads its operands as they are stored, stays
/// within the device's grid, and carries only fusions that its kernel
/// implements.
pub proof fn recorded_dispatch_agrees(
    ctx: VulkanContext,
    op: MatmulOp,
    dims: ResolvedMatmul,
    slot: usize,
)
    requires
        slot < KERNEL_COUNT,
        dispatch_result(ctx, op, dims, slot) is Ok,
    ensures
        ({
            let d = dispatch_result(ctx, op, dims, slot)->Ok_0;
            let kernel = slot_kernel(slot);
            &&& name_weights_f16(kernel.name@) == dims.b_f16
            &&& name_a_f16(kernel.name@) == dims.a_f16
            &&& name_packed(kernel.name@) == dims.packed_b
            &&& ctx.grid_fits(d.gx as int, d.gy as int, d.gz as int)
            &&& op.epilogue != Epilogue::plain() ==> kernel.fuses_epilogue()
            &&& op.normed_a is Some ==> name_row(kernel.name@)
            &&& !(op.store is Absent) ==> kernel.fuses_store()
        }),
{
}

/// A buffer to be bound for a dispatch.
#[derive(Copy, Clone, Debug, PartialEq, Eq, Structural)]
pub struct DescriptorWrite {
    /// Position of the operation, and of its descriptor set.
    pub set: usize,
    pub binding: u32,
    pub buffer: u64,
    pub bytes: u64,
}

/// The writes of one operation: A, B and C at bindings 0, 1 and 2.
pub open spec fn op_writes(op: MatmulOp, set: usize) -> Seq<DescriptorWrite> {
    seq![
        DescriptorWrite {
            set,
            binding: 0,
            buffer: op.call.a@.buffer.handle,
            bytes: op.call.a@.buffer.bytes,
        },
        DescriptorWrite {
            set,
            binding: 1,
            buffer: op.call.b@.buffer.handle,
            bytes: op.call.b@.buffer.bytes,
        },
        DescriptorWrite {
            set,
            binding: 2,
            buffer: op.call.c@.buffer.handle,
            bytes: op.call.c@.buffer.bytes,
        },
    ]
}

/// The writes of the first `upto` operations: only those whose kernel binds
/// descriptors have any.
pub open spec fn batch_writes(ops: Seq<MatmulOp>, plans: Seq<OpPlan>, upto: int) -> Seq<DescriptorWrite>
    decreases upto,
{
    if upto <= 0 {
        Seq::empty()
    } else {
        let front = batch_writes(ops, plans, upto - 1);
        if slot_kernel(plans[upto - 1].kernel).uses_descriptors {
            front + op_writes(ops[upto - 1], (upto - 1) as usize)
        } else {
            front
        }
    }
}

impl Executor {
    /// The descriptor writes of a batch. A batch of pointer-addressed kernels
    /// has none.
    pub fn update_matmul_descriptor_sets(&self, ops: &[MatmulOp<'_>], plans: &[OpPlan]) -> (r: Vec<
        DescriptorWrite,
    >)
        requires
            plans@.len() == ops@.len(),
            forall|i: int| 0 <= i < plans@.len() ==> plan_present(self@.pipeline, #[trigger] plans@[i]),
        ensures
            r@ == batch_writes(ops@, plans@, ops@.len() as int),
    {
        let mut writes: Vec<DescriptorWrite> = Vec::new();
        let mut i: usize = 0;
        while i < ops.len()
            invariant
                i <= ops@.len(),
                plans@.len() == ops@.len(),
                forall|i: int| 0 <= i < plans@.len() ==> plan_present(
                    self@.pipeline,
                    #[trigger] plans@[i],
                ),
                writes@ == batch_writes(ops@, plans@, i as int),
            decreases ops.len() - i,
        {
            assert(plan_present(self@.pipeline, plans@[i as int]));
            let kernel: KernelSpec = self.pipeline().kernel_at(plans[i].kernel);
            if kernel.uses_descriptors {
                let ghost before = writes@;
                let call = ops[i].call;
                writes.push(
                    DescriptorWrite {
                        set: i,
                        binding: 0,
                        buffer: call.a.raw_buffer(),
                        bytes: call.a.size_bytes(),
                    },
                );
                writes.push(
                    DescriptorWrite {
                        set: i,
                        binding: 1,
                        buffer: call.b.raw_buffer(),
                        bytes: call.b.size_bytes(),
                    },
                );
                writes.push(
                    DescriptorWrite {
                        set: i,
                        binding: 2,
                        buffer: call.c.raw_buffer(),
                        bytes: call.c.size_bytes(),
                    },
                );
                assert(writes@ =~= before + op_writes(ops@[i as int], i));
            }
            i = i + 1;
        }
        writes
    }
}

} // verus!
