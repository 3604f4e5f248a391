//! The kernels that a device has, and the one that each shape takes.

use crate::arith::{ceil_div, div_ceil};
use crate::context::VulkanContext;
use crate::error::{refused_name, Error, ErrorView, Refusal};
use crate::pipeline::abi::{EpilogueKey, KernelVariant};
use crate::pipeline::catalog::{
    name_a_f16, name_aligned, name_cm2, name_coopmat, name_packed, name_row, name_weights_f16,
    KernelSelection, KernelSpec, KERNEL_COUNT,
};
use crate::pipeline::routing::{
    bda_sibling, coopmat_choice, coopmat_kernel, coopmat_selection, f16w_row_selection,
    f16w_sibling, maybe_to_bda, row_choice, to_f16w,
};
use crate::pipeline::selection::{
    auto_choice, auto_min_large_tiles_for, auto_select_kernel, min_large_tiles_of,
};
use crate::pipeline::tuning::{
    all_bytes, fnv1a, header_line, header_text, listing, reloaded_map, shader_registry_hash,
    store_map, store_text, TuneEntry, TuneKey, TunedMap,
};
use crate::text::same_text;
use vstd::prelude::*;

verus! {

/// Compiled shaders outside the registry that the store's hash covers: the
/// two stages of split-K.
pub const EXTRA_SHADERS: usize = 3;

/// Why a device cannot have a kernel.
#[derive(Copy, Clone, Debug, PartialEq, Eq, Structural)]
pub enum Gate {
    Coopmat2,
    Coopmat,
    F16Storage,
    SharedMemory,
}

/// The first gate that keeps a kernel off a device, if any does: features
/// that its shader declares, then the workgroup memory that it declares.
pub open spec fn gate_of(ctx: VulkanContext, spec: KernelSpec, shared_bytes: u32) -> Option<Gate> {
    if name_cm2(spec.name@) && !ctx.coopmat2_enabled {
        Some(Gate::Coopmat2)
    } else if name_coopmat(spec.name@) && !ctx.coopmat_enabled {
        Some(Gate::Coopmat)
    } else if name_weights_f16(spec.name@) && !ctx.f16_storage_enabled {
        Some(Gate::F16Storage)
    } else if shared_bytes > ctx.workgroup_shared_budget {
        Some(Gate::SharedMemory)
    } else {
        None
    }
}

fn gate(ctx: &VulkanContext, spec: &KernelSpec, shared_bytes: u32) -> (r: Option<Gate>)
    ensures
        r == gate_of(*ctx, *spec, shared_bytes),
{
    if !ctx.coopmat2_enabled && spec.cm2() {
        Some(Gate::Coopmat2)
    } else if !ctx.coopmat_enabled && spec.coopmat() {
        Some(Gate::Coopmat)
    } else if !ctx.f16_storage_enabled && spec.weights_f16() {
        Some(Gate::F16Storage)
    } else if shared_bytes > ctx.workgroup_shared_budget {
        Some(Gate::SharedMemory)
    } else {
        None
    }
}

/// Which registry slots a device fills.
pub open spec fn present_of(ctx: VulkanContext, shared_bytes: Seq<u32>) -> Seq<bool> {
    Seq::new(
        KERNEL_COUNT as nat,
        |i: int| gate_of(ctx, KernelSelection::of_index(i).spec_of(), shared_bytes[i]) is None,
    )
}

/// Why an explicit selection that a gate keeps off is refused.
pub open spec fn gate_refusal(ctx: VulkanContext, gate: Gate, shared_bytes: u32) -> Refusal {
    match gate {
        Gate::Coopmat2 => Refusal::SelectedNeedsCoopmat2,
        Gate::Coopmat => Refusal::SelectedNeedsCoopmat,
        Gate::F16Storage => Refusal::SelectedNeedsF16,
        Gate::SharedMemory => Refusal::SelectedOverBudget {
            shared_bytes,
            budget: ctx.workgroup_shared_budget,
        },
    }
}

/// The kernel that stands in for one whose slot is empty.
pub open spec fn demoted(selection: KernelSelection) -> Option<KernelSelection> {
    match selection {
        KernelSelection::M128N64K64 => Some(KernelSelection::M128N64),
        KernelSelection::M128N64K64BdaV4 => Some(KernelSelection::M128N64BdaV4),
        KernelSelection::F16wM128N64K64BdaV4 => Some(KernelSelection::F16wSmallBdaV4),
        KernelSelection::Large => Some(KernelSelection::Small),
        KernelSelection::K64 => Some(KernelSelection::Small),
        KernelSelection::M128N64 => Some(KernelSelection::Small),
        KernelSelection::M64N128 => Some(KernelSelection::Small),
        KernelSelection::LargeBdaV4 => Some(KernelSelection::SmallBdaV4),
        KernelSelection::K64BdaV4Tm8Tn4 => Some(KernelSelection::SmallBdaV4),
        KernelSelection::M128N64BdaV4 => Some(KernelSelection::SmallBdaV4),
        KernelSelection::M64N128BdaV4 => Some(KernelSelection::SmallBdaV4),
        KernelSelection::F16wLargeBdaV4 => Some(KernelSelection::F16wSmallBdaV4),
        KernelSelection::F16wK64BdaV4 => Some(KernelSelection::F16wSmallBdaV4),
        KernelSelection::F16wCoopmatM64 => Some(KernelSelection::F16wCoopmat),
        KernelSelection::F16wCoopmatM64N128 => Some(KernelSelection::F16wCoopmat),
        KernelSelection::F16wCoopmatM128N64 => Some(KernelSelection::F16wCoopmat),
        KernelSelection::F16wA16CoopmatM64 => Some(KernelSelection::F16wA16Coopmat),
        KernelSelection::F16wA16CoopmatM64N128 => Some(KernelSelection::F16wA16Coopmat),
        KernelSelection::F16wA16CoopmatM128N64 => Some(KernelSelection::F16wA16Coopmat),
        _ => None,
    }
}

fn demotion(selection: KernelSelection) -> (r: Option<KernelSelection>)
    ensures
        r == demoted(selection),
{
    match selection {
        KernelSelection::M128N64K64 => Some(KernelSelection::M128N64),
        KernelSelection::M128N64K64BdaV4 => Some(KernelSelection::M128N64BdaV4),
        KernelSelection::F16wM128N64K64BdaV4 => Some(KernelSelection::F16wSmallBdaV4),
        KernelSelection::Large => Some(KernelSelection::Small),
        KernelSelection::K64 => Some(KernelSelection::Small),
        KernelSelection::M128N64 => Some(KernelSelection::Small),
        KernelSelection::M64N128 => Some(KernelSelection::Small),
        KernelSelection::LargeBdaV4 => Some(KernelSelection::SmallBdaV4),
        KernelSelection::K64BdaV4Tm8Tn4 => Some(KernelSelection::SmallBdaV4),
        KernelSelection::M128N64BdaV4 => Some(KernelSelection::SmallBdaV4),
        KernelSelection::M64N128BdaV4 => Some(KernelSelection::SmallBdaV4),
        KernelSelection::F16wLargeBdaV4 => Some(KernelSelection::F16wSmallBdaV4),
        KernelSelection::F16wK64BdaV4 => Some(KernelSelection::F16wSmallBdaV4),
        KernelSelection::F16wCoopmatM64 => Some(KernelSelection::F16wCoopmat),
        KernelSelection::F16wCoopmatM64N128 => Some(KernelSelection::F16wCoopmat),
        KernelSelection::F16wCoopmatM128N64 => Some(KernelSelection::F16wCoopmat),
        KernelSelection::F16wA16CoopmatM64 => Some(KernelSelection::F16wA16Coopmat),
        KernelSelection::F16wA16CoopmatM64N128 => Some(KernelSelection::F16wA16Coopmat),
        KernelSelection::F16wA16CoopmatM128N64 => Some(KernelSelection::F16wA16Coopmat),
        _ => None,
    }
}

/// How many times a selection can be demoted.
pub open spec fn demotions(selection: KernelSelection) -> nat {
    match demoted(selection) {
        None => 0,
        Some(next) => match demoted(next) {
            None => 1,
            Some(_) => 2,
        },
    }
}

/// The slot that a selection ends in: its own, or the first filled one that
/// demoting leads to. A packed row kernel has no stand-in, since no other
/// kernel reads its B.
pub open spec fn filled_slot(present: Seq<bool>, selection: KernelSelection) -> Option<usize>
    decreases demotions(selection),
{
    match selection.index_of() {
        None => None,
        Some(index) => if present[index as int] {
            Some(index)
        } else {
            match demoted(selection) {
                None => None,
                Some(next) => filled_slot(present, next),
            }
        },
    }
}

/// What a pipeline knows.
pub struct PipelineView {
    pub ctx: VulkanContext,
    pub present: Seq<bool>,
    pub selection: KernelSelection,
    pub tuned: Map<TuneKey, TuneEntry>,
    /// Hash of the compiled shaders.
    pub shader_hash: u64,
}

/// The GEMV kernel that a degenerate shape asks for.
pub open spec fn gemv_choice(m: u32, n: u32, k: u32, b_f16: bool) -> Option<KernelSelection> {
    if m == 1 {
        Some(
            if b_f16 {
                row_choice(k, n)
            } else {
                KernelSelection::RowBda
            },
        )
    } else if n == 1 && !b_f16 {
        Some(KernelSelection::ColBda)
    } else if k == 1 && !b_f16 {
        Some(KernelSelection::OuterBda)
    } else {
        None
    }
}

/// Whether the grid of a kernel over an output stays within the device's
/// limits.
pub open spec fn kernel_grid_fits(ctx: VulkanContext, spec: KernelSpec, batch: u32, m: u32, n: u32) -> bool {
    ctx.grid_fits(
        ceil_div(n as int, spec.tile_n as int),
        ceil_div(m as int, spec.tile_m as int),
        batch as int,
    )
}

/// Whether cooperative matrices suit an f16-weight shape.
pub open spec fn coopmat_suits(m: u32, n: u32, k: u32) -> bool {
    k % 32 == 0 && m >= 128 && n >= 128 && m % 64 == 0 && n % 64 == 0
}

/// The kernel of the shape heuristic, before empty slots are passed over.
pub open spec fn tiled_choice(ctx: VulkanContext, batch: u32, m: u32, n: u32, k: u32, b_f16: bool) -> KernelSelection {
    let tile = auto_choice(batch, m, n, k, min_large_tiles_of(ctx.device_kind));
    if b_f16 {
        if ctx.coopmat_enabled && coopmat_suits(m, n, k) {
            coopmat_kernel(coopmat_choice(batch, m, n)->0, false)
        } else {
            f16w_sibling(tile)
        }
    } else if ctx.buffer_device_address_enabled {
        bda_sibling(tile)
    } else {
        tile
    }
}

impl PipelineView {
    /// The registry slot that the shape heuristic picks: the GEMV kernel of
    /// a degenerate shape, where the device takes its grid; else the tiled
    /// kernel, demoted past empty slots.
    pub open spec fn heuristic_slot(self, batch: u32, m: u32, n: u32, k: u32, b_f16: bool) -> Option<usize> {
        let gemv = gemv_choice(m, n, k, b_f16);
        if self.ctx.buffer_device_address_enabled && gemv is Some && kernel_grid_fits(
            self.ctx,
            gemv->0.spec_of(),
            batch,
            m,
            n,
        ) {
            gemv->0.index_of()
        } else {
            filled_slot(self.present, tiled_choice(self.ctx, batch, m, n, k, b_f16))
        }
    }

    /// Whether a fused f16-weight product may take the second-generation
    /// cooperative-matrix kernel.
    pub open spec fn cm2_suits(self, m: u32, n: u32, k: u32, b_f16: bool) -> bool {
        &&& b_f16
        &&& m % 128 == 0
        &&& n % 128 == 0
        &&& k % 32 == 0
        &&& m >= 256
        &&& n >= 256
        &&& self.present[KernelSelection::F16wCm2.index_of()->0 as int]
    }

    /// The slot for a product with a fused epilogue: the heuristic's where
    /// its kernel fuses, else the second-generation cooperative-matrix
    /// kernel where it suits, else the plain sibling of the tile class.
    pub open spec fn epilogue_slot(self, batch: u32, m: u32, n: u32, k: u32, b_f16: bool) -> Option<usize> {
        let index = self.heuristic_slot(batch, m, n, k, b_f16);
        if index is Some && KernelSelection::of_index(index->0 as int).spec_of().fuses_epilogue() {
            index
        } else if self.cm2_suits(m, n, k, b_f16) {
            KernelSelection::F16wCm2.index_of()
        } else {
            let tile = auto_choice(batch, m, n, k, min_large_tiles_of(self.ctx.device_kind));
            filled_slot(
                self.present,
                if b_f16 {
                    f16w_sibling(tile)
                } else {
                    bda_sibling(tile)
                },
            )
        }
    }

    /// The route of a shape: the kernel's slot, and for a measured shape the
    /// split-K outcome.
    pub open spec fn route_of(self, batch: u32, m: u32, n: u32, k: u32, b_f16: bool) -> (
        usize,
        Option<Option<u32>>,
    ) {
        let key = TuneKey { batch, m, n, k, b_f16 };
        if !(self.selection is Auto) {
            (self.selection.index_of()->0, None)
        } else if self.tuned.contains_key(key) {
            (self.tuned[key].kernel, Some(self.tuned[key].splitk2_splits))
        } else {
            (self.heuristic_slot(batch, m, n, k, b_f16)->0, None)
        }
    }

    /// Whether the slot of a selection is filled.
    pub open spec fn has(self, selection: KernelSelection) -> bool {
        self.present[selection.index_of()->0 as int]
    }

    /// Whether a slot is named and filled.
    pub open spec fn filled(self, slot: Option<usize>) -> bool {
        slot matches Some(s) && s < KERNEL_COUNT && self.present[s as int]
    }

    /// Whether the shape heuristic ends in a filled slot.
    pub open spec fn heuristic_ready(self, batch: u32, m: u32, n: u32, k: u32, b_f16: bool) -> bool {
        self.filled(self.heuristic_slot(batch, m, n, k, b_f16))
    }

    /// Whether a shape has a route: an explicit selection, a measured winner,
    /// or a heuristic that ends somewhere.
    pub open spec fn has_route(self, batch: u32, m: u32, n: u32, k: u32, b_f16: bool) -> bool {
        ||| !(self.selection is Auto)
        ||| self.tuned.contains_key(TuneKey { batch, m, n, k, b_f16 })
        ||| self.heuristic_slot(batch, m, n, k, b_f16) is Some
    }

    /// Whether a shape has a kernel: its route ends in a filled slot, as that
    /// of an explicit selection always does.
    pub open spec fn shape_ready(self, batch: u32, m: u32, n: u32, k: u32, b_f16: bool) -> bool {
        let key = TuneKey { batch, m, n, k, b_f16 };
        if !(self.selection is Auto) {
            true
        } else if self.tuned.contains_key(key) {
            self.filled(Some(self.tuned[key].kernel))
        } else {
            self.heuristic_ready(batch, m, n, k, b_f16)
        }
    }

    /// Every measured winner's slot is filled.
    pub open spec fn winners_filled(self) -> bool {
        forall|key: TuneKey| #[trigger]
            self.tuned.contains_key(key) ==> self.filled(Some(self.tuned[key].kernel))
    }

    /// Whether a shape has a kernel for a fused epilogue.
    pub open spec fn epilogue_ready(self, batch: u32, m: u32, n: u32, k: u32, b_f16: bool) -> bool {
        self.heuristic_ready(batch, m, n, k, b_f16) && self.filled(
            self.epilogue_slot(batch, m, n, k, b_f16),
        )
    }

    /// Whether every chain of demotions ends in a filled slot, for one
    /// storage type of B.
    pub open spec fn routes(self, b_f16: bool) -> bool {
        if b_f16 {
            &&& self.has(KernelSelection::F16wSmallBdaV4)
            &&& self.has(KernelSelection::F16wRowBdaK16)
            &&& self.has(KernelSelection::F16wRowBdaK16V2)
            &&& self.has(KernelSelection::F16wRowBdaK16Packed)
            &&& self.has(KernelSelection::F16wRowBdaK16V2Packed)
            &&& self.ctx.coopmat_enabled ==> {
                &&& self.has(KernelSelection::F16wCoopmat)
                &&& self.has(KernelSelection::F16wA16Coopmat)
                &&& self.has(KernelSelection::F16wA16CoopmatM64)
            }
        } else {
            &&& self.has(KernelSelection::Small)
            &&& self.has(KernelSelection::M64N32)
            &&& self.has(KernelSelection::SmallBdaV4)
            &&& self.has(KernelSelection::M64N32Bda)
            &&& self.has(KernelSelection::RowBda)
            &&& self.has(KernelSelection::ColBda)
            &&& self.has(KernelSelection::OuterBda)
        }
    }

    /// Whether measuring a shape tries the kernel of a slot: a filled slot
    /// of a pointer-addressed kernel that handles the shape, reads B as it
    /// is stored and A as f32.
    pub open spec fn tunable(self, idx: int, m: u32, n: u32, k: u32, b_f16: bool) -> bool {
        let spec = KernelSelection::of_index(idx).spec_of();
        let name = spec.name@;
        let tensor_core = name_coopmat(name) || name_cm2(name);
        let whole_tiles = m % 128 == 0 && n % 128 == 0 && k % 32 == 0;
        &&& self.ctx.buffer_device_address_enabled
        &&& self.present[idx]
        &&& !(name_coopmat(name) && !name_aligned(name))
        &&& !name_packed(name)
        &&& !spec.uses_descriptors
        &&& name_aligned(name) ==> tensor_core && whole_tiles
        &&& tensor_core ==> whole_tiles
        &&& name_weights_f16(name) == b_f16
        &&& !name_a_f16(name)
        &&& m == 1 || !name_row(name)
        &&& n == 1 || name != "col_bda"@
        &&& k == 1 || name != "outer_bda"@
    }

    /// The tunable slots below `upto`, ascending.
    pub open spec fn tunable_slots(self, upto: int, m: u32, n: u32, k: u32, b_f16: bool) -> Seq<usize>
        decreases upto,
    {
        if upto <= 0 {
            Seq::empty()
        } else {
            let front = self.tunable_slots(upto - 1, m, n, k, b_f16);
            if self.tunable(upto - 1, m, n, k, b_f16) {
                front.push((upto - 1) as usize)
            } else {
                front
            }
        }
    }
}

/// A compiled kernel.
pub type MatmulKernel = KernelSpec;

/// What a compute pipeline is specialized to. Two dispatches with equal
/// identities share one pipeline.
#[derive(Copy, Clone, Debug, PartialEq, Eq, Structural)]
pub struct PipelineId {
    /// Registry slot of the kernel.
    pub kernel: usize,
    pub variant: KernelVariant,
    pub epilogue: EpilogueKey,
}

impl PipelineId {
    /// Whether the pipeline is one of those that are built eagerly: nothing
    /// fused, every bound checked. All others are built on first use.
    pub fn is_eager(&self) -> (r: bool)
        ensures
            r == (self.epilogue == EpilogueKey::none() && self.variant
                == self.variant.without_alignment()),
    {
        self.epilogue.is_none() && self.variant == self.variant.fallback()
    }
}

/// The kernels of a device, the selection that it was opened with, and the
/// measured winners.
pub struct MatmulPipeline {
    ctx: VulkanContext,
    /// One flag per registry slot: whether the device has the kernel.
    present: Vec<bool>,
    selection: KernelSelection,
    auto_min_large_tiles: u64,
    tuned: TunedMap,
    shader_hash: u64,
}

impl View for MatmulPipeline {
    type V = PipelineView;

    closed spec fn view(&self) -> PipelineView {
        PipelineView {
            ctx: self.ctx,
            present: self.present@,
            selection: self.selection,
            tuned: self.tuned@,
            shader_hash: self.shader_hash,
        }
    }
}

/// Where a gate keeps an explicitly selected kernel off, the refusal that
/// names it.
pub open spec fn selection_refusal(
    ctx: VulkanContext,
    selection: KernelSelection,
    shared_bytes: Seq<u32>,
) -> Option<ErrorView> {
    match selection.index_of() {
        None => None,
        Some(index) => match gate_of(ctx, selection.spec_of(), shared_bytes[index as int]) {
            None => None,
            Some(gate) => Some(
                refused_name(
                    gate_refusal(ctx, gate, shared_bytes[index as int]),
                    selection.spec_of().name@,
                ),
            ),
        },
    }
}

impl MatmulPipeline {
    /// Every slot is decided, an explicitly selected kernel is there, and
    /// every measured winner is a kernel of the registry.
    #[verifier::type_invariant]
    pub closed spec fn well_formed(self) -> bool {
        &&& self.present@.len() == KERNEL_COUNT
        &&& self.auto_min_large_tiles == min_large_tiles_of(self.ctx.device_kind)
        &&& self.selection.index_of() matches Some(i) ==> self.present@[i as int]
        &&& forall|key: TuneKey| #[trigger]
            self.tuned@.contains_key(key) ==> self.tuned@[key].valid()
    }

    /// A pipeline on `ctx` with the given selection.
    ///
    /// `binaries` holds the compiled shaders in registry order and behind
    /// them the [`EXTRA_SHADERS`]; `shared_bytes` the workgroup memory that
    /// each registry kernel declares; `store` the persisted winners, where
    /// there are any. A kernel that a gate keeps off leaves its slot empty,
    /// and winners that point at an empty slot are dropped.
    pub fn new_with_kernel_selection(
        ctx: &VulkanContext,
        selection: KernelSelection,
        binaries: &[Vec<u8>],
        shared_bytes: &[u32],
        store: Option<&str>,
    ) -> (r: Result<Self, Error>)
        requires
            binaries@.len() == KERNEL_COUNT + EXTRA_SHADERS,
            shared_bytes@.len() == KERNEL_COUNT,
        ensures
            selection_refusal(*ctx, selection, shared_bytes@) matches Some(e) ==> r is Err
                && r->Err_0@ == e,
            selection_refusal(*ctx, selection, shared_bytes@) is None ==> r is Ok,
            r matches Ok(p) ==> {
                let loaded = match store {
                    None => Map::empty(),
                    Some(text) => store_map(
                        text@,
                        header_text(ctx.driver_version, p@.shader_hash),
                    ),
                };
                &&& p@.shader_hash == fnv1a(0xcbf29ce484222325, all_bytes(binaries@))
                &&& p@.ctx == *ctx
                &&& p@.selection == selection
                &&& p@.present == present_of(*ctx, shared_bytes@)
                &&& forall|key: TuneKey| #[trigger]
                    p@.tuned.contains_key(key) <==> loaded.contains_key(key)
                        && p@.present[loaded[key].kernel as int]
                &&& forall|key: TuneKey| #[trigger]
                    p@.tuned.contains_key(key) ==> p@.tuned[key] == loaded[key]
            },
    {
        let mut present: Vec<bool> = Vec::new();
        let mut i: usize = 0;
        while i < KERNEL_COUNT
            invariant
                i <= KERNEL_COUNT,
                shared_bytes@.len() == KERNEL_COUNT,
                present@ =~= present_of(*ctx, shared_bytes@).take(i as int),
            decreases KERNEL_COUNT - i,
        {
            let spec: KernelSpec = KernelSelection::at_index(i).kernel_spec();
            let off: Option<Gate> = gate(ctx, &spec, shared_bytes[i]);
            present.push(off.is_none());
            i = i + 1;
        }
        assert(present@ =~= present_of(*ctx, shared_bytes@));
        if let Some(index) = selection.index() {
            let spec: KernelSpec = selection.kernel_spec();
            assert(KernelSelection::of_index(index as int) == selection);
            if let Some(off) = gate(ctx, &spec, shared_bytes[index]) {
                let refusal: Refusal = match off {
                    Gate::Coopmat2 => Refusal::SelectedNeedsCoopmat2,
                    Gate::Coopmat => Refusal::SelectedNeedsCoopmat,
                    Gate::F16Storage => Refusal::SelectedNeedsF16,
                    Gate::SharedMemory => Refusal::SelectedOverBudget {
                        shared_bytes: shared_bytes[index],
                        budget: ctx.workgroup_shared_budget,
                    },
                };
                return Err(Error::with_name(refusal, spec.name));
            }
        }
        let shader_hash: u64 = shader_registry_hash(binaries);
        let mut tuned: TunedMap = match store {
            None => TunedMap::new(),
            Some(text) => {
                let header: String = header_line(ctx, shader_hash);
                TunedMap::from_text(text, header.as_str())
            }
        };
        tuned.retain_present(&present);
        Ok(
            MatmulPipeline {
                ctx: *ctx,
                present,
                selection,
                auto_min_large_tiles: auto_min_large_tiles_for(ctx.device_kind),
                tuned,
                shader_hash,
            },
        )
    }

    /// The device that this pipeline is for.
    pub fn context(&self) -> (r: &VulkanContext)
        ensures
            *r == self@.ctx,
    {
        &self.ctx
    }

    /// Whether this pipeline was built on `ctx`.
    pub fn belongs_to(&self, ctx: &VulkanContext) -> (r: bool)
        ensures
            r == (self@.ctx.id == ctx.id),
    {
        self.ctx.id == ctx.id
    }

    /// Hash that binds persisted winners to the shader build.
    pub fn shader_hash(&self) -> (r: u64)
        ensures
            r == self@.shader_hash,
    {
        self.shader_hash
    }

    /// Whether the slot of a concrete selection is filled.
    pub fn has(&self, selection: KernelSelection) -> (r: bool)
        requires
            !(selection is Auto),
        ensures
            r == self@.has(selection),
    {
        proof {
            use_type_invariant(self);
        }
        match selection.index() {
            Some(index) => self.present[index],
            None => false,
        }
    }

    /// Whether every chain of demotions ends in a filled slot, for one
    /// storage type of B. Where it does, routing and planning succeed for
    /// every shape.
    pub fn routes(&self, b_f16: bool) -> (r: bool)
        ensures
            r == self@.routes(b_f16),
    {
        if b_f16 {
            self.has(KernelSelection::F16wSmallBdaV4) && self.has(KernelSelection::F16wRowBdaK16)
                && self.has(KernelSelection::F16wRowBdaK16V2) && self.has(
                KernelSelection::F16wRowBdaK16Packed,
            ) && self.has(KernelSelection::F16wRowBdaK16V2Packed) && (!self.ctx.coopmat_enabled || (
            self.has(KernelSelection::F16wCoopmat) && self.has(KernelSelection::F16wA16Coopmat)
                && self.has(KernelSelection::F16wA16CoopmatM64)))
        } else {
            self.has(KernelSelection::Small) && self.has(KernelSelection::M64N32) && self.has(
                KernelSelection::SmallBdaV4,
            ) && self.has(KernelSelection::M64N32Bda) && self.has(KernelSelection::RowBda)
                && self.has(KernelSelection::ColBda) && self.has(KernelSelection::OuterBda)
        }
    }

    /// The kernel that a plain f32 shape takes.
    pub fn select_kernel(&self, batch: u32, m: u32, n: u32, k: u32) -> (r: MatmulKernel)
        requires
            self@.shape_ready(batch, m, n, k, false),
        ensures
            r == KernelSelection::of_index(self@.route_of(batch, m, n, k, false).0 as int).spec_of(),
    {
        let (index, _) = self.route(batch, m, n, k, false);
        self.kernel_at(index)
    }

    /// The route of a shape: an explicit selection, else the measured
    /// winner, else the shape heuristic. The second part is the measured
    /// split-K outcome: `None` for an unmeasured shape, `Some(None)` where a
    /// data-parallel kernel won, and `Some(Some(s))` where split-K won.
    pub fn route(&self, batch: u32, m: u32, n: u32, k: u32, b_f16: bool) -> (r: (
        usize,
        Option<Option<u32>>,
    ))
        requires
            self@.has_route(batch, m, n, k, b_f16),
        ensures
            r == self@.route_of(batch, m, n, k, b_f16),
            r.0 < KERNEL_COUNT,
            self@.shape_ready(batch, m, n, k, b_f16) ==> self@.present[r.0 as int],
    {
        proof {
            use_type_invariant(self);
        }
        match self.selection.index() {
            None => {
                let key: TuneKey = TuneKey { batch, m, n, k, b_f16 };
                if let Some(entry) = self.tuned.get(key) {
                    return (entry.kernel, Some(entry.splitk2_splits));
                }
                (self.heuristic_kernel_index(batch, m, n, k, b_f16), None)
            }
            Some(index) => (index, None),
        }
    }

    /// Decides [`PipelineView::heuristic_ready`].
    pub fn heuristic_ready(&self, batch: u32, m: u32, n: u32, k: u32, b_f16: bool) -> (r: bool)
        ensures
            r == self@.heuristic_ready(batch, m, n, k, b_f16),
    {
        proof {
            use_type_invariant(self);
        }
        match self.heuristic(batch, m, n, k, b_f16) {
            Some(index) => self.present[index],
            None => false,
        }
    }

    /// Decides [`PipelineView::has_route`].
    pub fn has_route(&self, batch: u32, m: u32, n: u32, k: u32, b_f16: bool) -> (r: bool)
        ensures
            r == self@.has_route(batch, m, n, k, b_f16),
    {
        self.is_tuned(TuneKey { batch, m, n, k, b_f16 }) || self.heuristic(
            batch,
            m,
            n,
            k,
            b_f16,
        ).is_some()
    }

    /// Decides [`PipelineView::shape_ready`].
    pub fn shape_ready(&self, batch: u32, m: u32, n: u32, k: u32, b_f16: bool) -> (r: bool)
        ensures
            r == self@.shape_ready(batch, m, n, k, b_f16),
    {
        if !self.is_auto() {
            return true;
        }
        proof {
            use_type_invariant(self);
        }
        match self.tuned.get(TuneKey { batch, m, n, k, b_f16 }) {
            Some(entry) => self.present[entry.kernel],
            None => self.heuristic_ready(batch, m, n, k, b_f16),
        }
    }

    /// Decides [`PipelineView::epilogue_ready`].
    pub fn epilogue_ready(&self, batch: u32, m: u32, n: u32, k: u32, b_f16: bool) -> (r: bool)
        ensures
            r == self@.epilogue_ready(batch, m, n, k, b_f16),
    {
        self.heuristic_ready(batch, m, n, k, b_f16) && self.epilogue_fallback(
            batch,
            m,
            n,
            k,
            b_f16,
        ).is_some()
    }

    /// The shape heuristic's pick, ignoring any measured winner.
    pub fn heuristic_kernel_index(&self, batch: u32, m: u32, n: u32, k: u32, b_f16: bool) -> (r: usize)
        requires
            self@.heuristic_slot(batch, m, n, k, b_f16) is Some,
        ensures
            self@.heuristic_slot(batch, m, n, k, b_f16) == Some(r),
            r < KERNEL_COUNT,
    {
        match self.heuristic(batch, m, n, k, b_f16) {
            Some(index) => index,
            None => 0,
        }
    }

    fn heuristic(&self, batch: u32, m: u32, n: u32, k: u32, b_f16: bool) -> (r: Option<usize>)
        ensures
            r == self@.heuristic_slot(batch, m, n, k, b_f16),
            r matches Some(index) ==> index < KERNEL_COUNT,
    {
        proof {
            use_type_invariant(self);
        }
        if self.ctx.buffer_device_address_enabled {
            let selection: Option<KernelSelection> = if m == 1 {
                Some(
                    if b_f16 {
                        f16w_row_selection(k, n)
                    } else {
                        KernelSelection::RowBda
                    },
                )
            } else if n == 1 && !b_f16 {
                Some(KernelSelection::ColBda)
            } else if k == 1 && !b_f16 {
                Some(KernelSelection::OuterBda)
            } else {
                None
            };
            if let Some(selection) = selection {
                let spec: KernelSpec = selection.kernel_spec();
                if div_ceil(n, spec.tile_n) <= self.ctx.max_groups_x && div_ceil(m, spec.tile_m)
                    <= self.ctx.max_groups_y && batch <= self.ctx.max_groups_z {
                    return selection.index();
                }
            }
        }
        let tile: KernelSelection = auto_select_kernel(batch, m, n, k, self.auto_min_large_tiles);
        let coopmat: Option<KernelSelection> = if b_f16 && self.ctx.coopmat_enabled && k % 32 == 0
            && m >= 128 && n >= 128 && m % 64 == 0 && n % 64 == 0 {
            coopmat_selection(batch, m, n, false)
        } else {
            None
        };
        let selection: KernelSelection = match coopmat {
            Some(selection) => selection,
            None => if b_f16 {
                to_f16w(tile)
            } else if self.ctx.buffer_device_address_enabled {
                maybe_to_bda(tile)
            } else {
                tile
            },
        };
        self.filled_index(selection)
    }

    /// The slot of a selection, or where it is empty the first filled one
    /// that demoting leads to.
    pub fn in_budget_index(&self, selection: KernelSelection) -> (r: usize)
        requires
            filled_slot(self@.present, selection) is Some,
        ensures
            filled_slot(self@.present, selection) == Some(r),
            r < KERNEL_COUNT,
            self@.present[r as int],
    {
        proof {
            use_type_invariant(self);
        }
        match self.filled_index(selection) {
            Some(index) => index,
            None => 0,
        }
    }

    fn filled_index(&self, selection: KernelSelection) -> (r: Option<usize>)
        ensures
            r == filled_slot(self@.present, selection),
            r matches Some(index) ==> index < KERNEL_COUNT && self@.present[index as int],
    {
        proof {
            use_type_invariant(self);
        }
        let mut current: KernelSelection = selection;
        loop
            invariant
                self.present@.len() == KERNEL_COUNT,
                self@.present == self.present@,
                filled_slot(self@.present, current) == filled_slot(self@.present, selection),
            decreases demotions(current),
        {
            match current.index() {
                None => return None,
                Some(index) => if self.present[index] {
                    return Some(index);
                },
            }
            match demotion(current) {
                None => return None,
                Some(next) => {
                    current = next;
                }
            }
        }
    }

    /// A kernel that fuses an epilogue for this shape; see
    /// [`PipelineView::epilogue_slot`].
    pub fn epilogue_fallback_index(&self, batch: u32, m: u32, n: u32, k: u32, b_f16: bool) -> (r: usize)
        requires
            self@.epilogue_ready(batch, m, n, k, b_f16),
        ensures
            self@.epilogue_slot(batch, m, n, k, b_f16) == Some(r),
            r < KERNEL_COUNT,
            self@.present[r as int],
    {
        match self.epilogue_fallback(batch, m, n, k, b_f16) {
            Some(index) => index,
            None => 0,
        }
    }

    fn epilogue_fallback(&self, batch: u32, m: u32, n: u32, k: u32, b_f16: bool) -> (r: Option<usize>)
        requires
            self@.heuristic_ready(batch, m, n, k, b_f16),
        ensures
            r == self@.epilogue_slot(batch, m, n, k, b_f16),
            r matches Some(index) ==> index < KERNEL_COUNT && self@.present[index as int],
    {
        let index: usize = self.heuristic_kernel_index(batch, m, n, k, b_f16);
        if self.kernel_at(index).supports_epilogue() {
            return Some(index);
        }
        if b_f16 && m % 128 == 0 && n % 128 == 0 && k % 32 == 0 && m >= 256 && n >= 256 {
            if self.has(KernelSelection::F16wCm2) {
                return KernelSelection::F16wCm2.index();
            }
        }
        proof {
            use_type_invariant(self);
        }
        let tile: KernelSelection = auto_select_kernel(batch, m, n, k, self.auto_min_large_tiles);
        let selection: KernelSelection = if b_f16 {
            to_f16w(tile)
        } else {
            maybe_to_bda(tile)
        };
        self.filled_index(selection)
    }

    /// Whether the kernel is chosen per shape: the only mode in which
    /// measured winners apply.
    pub fn is_auto(&self) -> (r: bool)
        ensures
            r == (self@.selection is Auto),
    {
        self.selection == KernelSelection::Auto
    }

    /// Whether a shape needs no measuring: it has a winner, or the selection
    /// is explicit.
    pub fn is_tuned(&self, key: TuneKey) -> (r: bool)
        ensures
            r == (!(self@.selection is Auto) || self@.tuned.contains_key(key)),
    {
        !self.is_auto() || self.tuned.get(key).is_some()
    }

    /// The split count that a measured shape takes, where split-K won.
    pub fn tuned_splitk2(&self, key: TuneKey) -> (r: Option<u32>)
        ensures
            r == (if self@.selection is Auto && self@.tuned.contains_key(key) {
                self@.tuned[key].splitk2_splits
            } else {
                None
            }),
    {
        if !self.is_auto() {
            return None;
        }
        match self.tuned.get(key) {
            Some(entry) => entry.splitk2_splits,
            None => None,
        }
    }

    /// The slots whose kernels are measured for a shape, ascending; see
    /// [`PipelineView::tunable`].
    pub fn tune_candidate_indices(&self, m: u32, n: u32, k: u32, b_f16: bool) -> (r: Vec<usize>)
        ensures
            r@ == self@.tunable_slots(KERNEL_COUNT as int, m, n, k, b_f16),
            forall|i: int| 0 <= i < r@.len() ==> #[trigger] r@[i] < KERNEL_COUNT
                && self@.tunable(r@[i] as int, m, n, k, b_f16),
    {
        proof {
            use_type_invariant(self);
        }
        let mut slots: Vec<usize> = Vec::new();
        let mut idx: usize = 0;
        while idx < KERNEL_COUNT
            invariant
                idx <= KERNEL_COUNT,
                self.present@.len() == KERNEL_COUNT,
                self@.present == self.present@,
                self@.ctx == self.ctx,
                slots@ == self@.tunable_slots(idx as int, m, n, k, b_f16),
                forall|i: int| 0 <= i < slots@.len() ==> #[trigger] slots@[i] < KERNEL_COUNT
                    && self@.tunable(slots@[i] as int, m, n, k, b_f16),
            decreases KERNEL_COUNT - idx,
        {
            let tunable: bool = self.slot_tunable(idx, m, n, k, b_f16);
            if tunable {
                slots.push(idx);
            }
            idx = idx + 1;
        }
        slots
    }

    fn slot_tunable(&self, idx: usize, m: u32, n: u32, k: u32, b_f16: bool) -> (r: bool)
        requires
            idx < KERNEL_COUNT,
        ensures
            r == self@.tunable(idx as int, m, n, k, b_f16),
    {
        proof {
            use_type_invariant(self);
        }
        if !self.ctx.buffer_device_address_enabled || !self.present[idx] {
            return false;
        }
        let spec: KernelSpec = KernelSelection::at_index(idx).kernel_spec();
        let tensor_core: bool = spec.coopmat() || spec.cm2();
        let aligned: bool = spec.aligned_only();
        if (spec.coopmat() && !aligned) || spec.packed() {
            return false;
        }
        let whole_tiles: bool = m % 128 == 0 && n % 128 == 0 && k % 32 == 0;
        let coopmat_fits: bool = tensor_core && whole_tiles;
        !spec.uses_descriptors && (!aligned || coopmat_fits) && (!tensor_core || coopmat_fits)
            && spec.weights_f16() == b_f16 && !spec.a_f16() && (m == 1 || !spec.row_gemv()) && (n
            == 1 || !same_text(spec.name, "col_bda")) && (k == 1 || !same_text(
            spec.name,
            "outer_bda",
        ))
    }

    /// The kernel of a filled slot.
    pub fn kernel_at(&self, idx: usize) -> (r: MatmulKernel)
        requires
            idx < KERNEL_COUNT,
            self@.present[idx as int],
        ensures
            r == KernelSelection::of_index(idx as int).spec_of(),
            r.tile_m > 0,
            r.tile_n > 0,
            0 < r.tile_k <= 64,
    {
        KernelSelection::at_index(idx).kernel_spec()
    }

    /// Records a measured winner.
    pub fn record_tuned(&mut self, key: TuneKey, entry: TuneEntry)
        requires
            entry.valid(),
        ensures
            final(self)@ == (PipelineView {
                tuned: old(self)@.tuned.insert(key, entry),
                ..old(self)@
            }),
    {
        proof {
            use_type_invariant(&*self);
        }
        let ghost before = *self;
        self.tuned = self.tuned.with(key, entry);
        assert(self@ =~= (PipelineView { tuned: before@.tuned.insert(key, entry), ..before@ }));
    }

    /// The measured winners as text, to be kept for the next process: the
    /// header of this build, then one line per winner, ascending by shape.
    pub fn store_text(&self) -> (r: String)
        ensures
            r@ == store_text(
                header_text(self@.ctx.driver_version, self@.shader_hash),
                listing(self@.tuned),
            ),
            store_map(r@, header_text(self@.ctx.driver_version, self@.shader_hash)) == reloaded_map(
                self@.tuned,
            ),
    {
        let header: String = header_line(&self.ctx, self.shader_hash);
        proof {
            crate::pipeline::tuning::header_is_line(self.ctx.driver_version, self.shader_hash);
        }
        self.tuned.to_text(header.as_str())
    }

    /// What the pipeline of a kernel, a variant and an epilogue is
    /// specialized to.
    pub fn pipeline_for_epilogue(&self, kernel: usize, variant: KernelVariant, epilogue: EpilogueKey) -> (r:
        PipelineId)
        ensures
            r == (PipelineId { kernel, variant, epilogue }),
    {
        PipelineId { kernel, variant, epilogue }
    }
}

/// Where the last kernel of every chain of demotions is there, each tile
/// class ends in a filled slot.
pub proof fn tile_classes_route(p: PipelineView, batch: u32, m: u32, n: u32, k: u32, b_f16: bool)
    requires
        p.present.len() == KERNEL_COUNT,
        p.routes(b_f16),
    ensures
        ({
            let tile = auto_choice(batch, m, n, k, min_large_tiles_of(p.ctx.device_kind));
            &&& b_f16 ==> filled_slot(p.present, f16w_sibling(tile)) is Some
            &&& !b_f16 ==> filled_slot(p.present, bda_sibling(tile)) is Some
            &&& !b_f16 ==> filled_slot(p.present, tile) is Some
        }),
{
    reveal_with_fuel(filled_slot, 3);
}

/// Where the last kernel of every chain of demotions is there, every shape has
/// a kernel, and one for a fused epilogue.
pub proof fn heuristic_always_routes(p: PipelineView, batch: u32, m: u32, n: u32, k: u32, b_f16: bool)
    requires
        p.present.len() == KERNEL_COUNT,
        p.routes(b_f16),
    ensures
        p.heuristic_ready(batch, m, n, k, b_f16),
        p.has_route(batch, m, n, k, b_f16),
        p.winners_filled() ==> p.shape_ready(batch, m, n, k, b_f16),
        p.epilogue_ready(batch, m, n, k, b_f16),
{
    reveal_with_fuel(filled_slot, 3);
    tile_classes_route(p, batch, m, n, k, b_f16);
}

/// Demoting never changes how B is stored nor whether descriptors are bound.
pub proof fn demotion_keeps_the_operands(selection: KernelSelection)
    requires
        demoted(selection) is Some,
    ensures
        name_weights_f16(demoted(selection)->0.spec_of().name@) == name_weights_f16(
            selection.spec_of().name@,
        ),
        demoted(selection)->0.spec_of().uses_descriptors == selection.spec_of().uses_descriptors,
        !(demoted(selection)->0 is Auto),
        demotions(demoted(selection)->0) < demotions(selection),
{
    let from = selection.spec_of().name@;
    let to = demoted(selection)->0.spec_of().name@;
    reveal_strlit("f16w_");
    reveal_strlit("m128n64k64");
    reveal_strlit("m128n64");
    reveal_strlit("m128n64k64_bda_v4");
    reveal_strlit("m128n64_bda_v4");
    reveal_strlit("f16w_m128n64k64_bda_v4");
    reveal_strlit("f16w_small_bda_v4");
    reveal_strlit("large_128");
    reveal_strlit("k64");
    reveal_strlit("m64n128");
    reveal_strlit("small_64");
    reveal_strlit("large_bda_v4");
    reveal_strlit("k64_bda_v4_tm8_tn4");
    reveal_strlit("m64n128_bda_v4");
    reveal_strlit("small_bda_v4");
    reveal_strlit("f16w_large_bda_v4");
    reveal_strlit("f16w_k64_bda_v4");
    reveal_strlit("f16w_coopmat_m64");
    reveal_strlit("f16w_coopmat_m64n128");
    reveal_strlit("f16w_coopmat_m128n64");
    reveal_strlit("f16w_coopmat_aligned");
    reveal_strlit("f16w_a16_coopmat_m64");
    reveal_strlit("f16w_a16_coopmat_m64n128");
    reveal_strlit("f16w_a16_coopmat_m128n64");
    reveal_strlit("f16w_a16_coopmat_aligned");
    let prefix = "f16w_"@;
    if from[0] == 'f' {
        assert(from.subrange(0, 5) =~= prefix);
        assert(to.subrange(0, 5) =~= prefix);
    } else {
        if from.len() >= 5 {
            assert(from.subrange(0, 5)[0] != prefix[0]);
        }
        if to.len() >= 5 {
            assert(to.subrange(0, 5)[0] != prefix[0]);
        }
    }
}

/// Recording decides routing: once a winner is recorded for a shape, the
/// shape takes its kernel and its split-K outcome, whatever was recorded
/// before; every other shape keeps its route; and an explicit selection is
/// honoured whatever is recorded.
pub proof fn recorded_winner_is_routed(p: PipelineView, key: TuneKey, entry: TuneEntry, other: TuneKey)
    ensures
        ({
            let q = PipelineView { tuned: p.tuned.insert(key, entry), ..p };
            &&& q.has_route(key.batch, key.m, key.n, key.k, key.b_f16)
            &&& q.route_of(key.batch, key.m, key.n, key.k, key.b_f16) == (if p.selection is Auto {
                (entry.kernel, Some(entry.splitk2_splits))
            } else {
                (p.selection.index_of()->0, None::<Option<u32>>)
            })
            &&& other != key ==> q.route_of(other.batch, other.m, other.n, other.k, other.b_f16)
                == p.route_of(other.batch, other.m, other.n, other.k, other.b_f16)
        }),
{
    assert(TuneKey { batch: key.batch, m: key.m, n: key.n, k: key.k, b_f16: key.b_f16 } == key);
    assert(TuneKey {
        batch: other.batch,
        m: other.m,
        n: other.n,
        k: other.k,
        b_f16: other.b_f16,
    } == other);
}

/// A shape without a record takes the heuristic's kernel, and nothing is known
/// of splitting it.
pub proof fn unrecorded_shape_takes_the_heuristic(
    p: PipelineView,
    batch: u32,
    m: u32,
    n: u32,
    k: u32,
    b_f16: bool,
)
    requires
        p.selection is Auto,
        !p.tuned.contains_key(TuneKey { batch, m, n, k, b_f16 }),
        p.heuristic_slot(batch, m, n, k, b_f16) is Some,
    ensures
        p.has_route(batch, m, n, k, b_f16),
        p.route_of(batch, m, n, k, b_f16) == (
            p.heuristic_slot(batch, m, n, k, b_f16)->0,
            None::<Option<u32>>,
        ),
{
}

/// An explicit selection is honoured for every shape.
pub proof fn explicit_selection_is_honoured(
    p: PipelineView,
    batch: u32,
    m: u32,
    n: u32,
    k: u32,
    b_f16: bool,
)
    requires
        !(p.selection is Auto),
    ensures
        p.route_of(batch, m, n, k, b_f16) == (p.selection.index_of()->0, None::<Option<u32>>),
{
}

/// Where buffer addresses are enabled and the device takes the grid, a single
/// row takes a row kernel; and with f32 weights a single column takes the
/// column kernel and a K of one the outer-product kernel.
pub proof fn degenerate_shapes_take_their_kernels(
    p: PipelineView,
    batch: u32,
    m: u32,
    n: u32,
    k: u32,
    b_f16: bool,
)
    requires
        p.ctx.buffer_device_address_enabled,
        gemv_choice(m, n, k, b_f16) is Some,
        kernel_grid_fits(p.ctx, gemv_choice(m, n, k, b_f16)->0.spec_of(), batch, m, n),
    ensures
        p.heuristic_slot(batch, m, n, k, b_f16) == gemv_choice(m, n, k, b_f16)->0.index_of(),
        m == 1 && !b_f16 ==> p.heuristic_slot(batch, m, n, k, b_f16)
            == KernelSelection::RowBda.index_of(),
        m == 1 && b_f16 ==> p.heuristic_slot(batch, m, n, k, b_f16) == row_choice(k, n).index_of(),
        m != 1 && n == 1 && !b_f16 ==> p.heuristic_slot(batch, m, n, k, b_f16)
            == KernelSelection::ColBda.index_of(),
        m != 1 && n != 1 && k == 1 && !b_f16 ==> p.heuristic_slot(batch, m, n, k, b_f16)
            == KernelSelection::OuterBda.index_of(),
{
}

/// Where buffer addresses are enabled, the heuristic never picks a kernel
/// that binds descriptors.
pub proof fn heuristic_prefers_addresses(
    p: PipelineView,
    batch: u32,
    m: u32,
    n: u32,
    k: u32,
    b_f16: bool,
)
    requires
        p.present.len() == KERNEL_COUNT,
        p.routes(b_f16),
        p.ctx.buffer_device_address_enabled,
    ensures
        !KernelSelection::of_index(
            p.heuristic_slot(batch, m, n, k, b_f16)->0 as int,
        ).spec_of().uses_descriptors,
{
    reveal_with_fuel(filled_slot, 3);
    heuristic_always_routes(p, batch, m, n, k, b_f16);
}

/// A text without one of the characters of another does not hold it.
proof fn lemma_lacks(hay: Seq<char>, needle: Seq<char>, k: int)
    requires
        0 <= k < needle.len(),
        forall|i: int| 0 <= i < hay.len() ==> hay[i] != needle[k],
    ensures
        !crate::text::contains(hay, needle),
{
    if crate::text::contains(hay, needle) {
        let at = choose|at: int| crate::text::stands_at(hay, needle, at);
        assert(hay.subrange(at, at + needle.len())[k] == hay[at + k]);
    }
}

/// The kernels that every chain of demotions of f32 weights ends in need no
/// feature beyond their workgroup memory.
proof fn lemma_plain_floor_ungated(ctx: VulkanContext, selection: KernelSelection, shared_bytes: u32)
    requires
        selection is Small || selection is M64N32 || selection is SmallBdaV4 || selection is M64N32Bda || selection is RowBda || selection is ColBda || selection is OuterBda,
        shared_bytes <= ctx.workgroup_shared_budget,
    ensures
        gate_of(ctx, selection.spec_of(), shared_bytes) is None,
{
    reveal_strlit("coopmat");
    reveal_strlit("cm2");
    reveal_strlit("f16w_");
    let name = selection.spec_of().name@;
    match selection {
        KernelSelection::Small => {
            reveal_strlit("small_64");
            lemma_lacks(name, "coopmat"@, 0);
            lemma_lacks(name, "cm2"@, 0);
            assert(name.len() >= 5 ==> name.subrange(0, 5)[0] != "f16w_"@[0]);
        }
        KernelSelection::M64N32 => {
            reveal_strlit("m64n32");
            lemma_lacks(name, "coopmat"@, 0);
            lemma_lacks(name, "cm2"@, 0);
            assert(name.len() >= 5 ==> name.subrange(0, 5)[0] != "f16w_"@[0]);
        }
        KernelSelection::SmallBdaV4 => {
            reveal_strlit("small_bda_v4");
            lemma_lacks(name, "coopmat"@, 0);
            lemma_lacks(name, "cm2"@, 0);
            assert(name.len() >= 5 ==> name.subrange(0, 5)[0] != "f16w_"@[0]);
        }
        KernelSelection::M64N32Bda => {
            reveal_strlit("m64n32_bda");
            lemma_lacks(name, "coopmat"@, 0);
            lemma_lacks(name, "cm2"@, 0);
            assert(name.len() >= 5 ==> name.subrange(0, 5)[0] != "f16w_"@[0]);
        }
        KernelSelection::RowBda => {
            reveal_strlit("row_bda");
            lemma_lacks(name, "coopmat"@, 0);
            lemma_lacks(name, "cm2"@, 0);
            assert(name.len() >= 5 ==> name.subrange(0, 5)[0] != "f16w_"@[0]);
        }
        KernelSelection::ColBda => {
            reveal_strlit("col_bda");
            lemma_lacks(name, "coopmat"@, 3);
            lemma_lacks(name, "cm2"@, 1);
            assert(name.len() >= 5 ==> name.subrange(0, 5)[0] != "f16w_"@[0]);
        }
        KernelSelection::OuterBda => {
            reveal_strlit("outer_bda");
            lemma_lacks(name, "coopmat"@, 0);
            lemma_lacks(name, "cm2"@, 0);
            assert(name.len() >= 5 ==> name.subrange(0, 5)[0] != "f16w_"@[0]);
        }
        _ => {}
    }
}

/// The kernels that every chain of demotions of f16 weights ends in need f16
/// storage, and some of them cooperative matrices.
proof fn lemma_half_floor_ungated(ctx: VulkanContext, selection: KernelSelection, shared_bytes: u32)
    requires
        selection is F16wSmallBdaV4 || selection is F16wRowBdaK16 || selection is F16wRowBdaK16V2 || selection is F16wRowBdaK16Packed || selection is F16wRowBdaK16V2Packed || (ctx.coopmat_enabled && (selection is F16wCoopmat || selection is F16wA16Coopmat || selection is F16wA16CoopmatM64)),
        ctx.f16_storage_enabled,
        shared_bytes <= ctx.workgroup_shared_budget,
    ensures
        gate_of(ctx, selection.spec_of(), shared_bytes) is None,
{
    reveal_strlit("coopmat");
    reveal_strlit("cm2");
    let name = selection.spec_of().name@;
    match selection {
        KernelSelection::F16wSmallBdaV4 => {
            reveal_strlit("f16w_small_bda_v4");
            lemma_lacks(name, "coopmat"@, 0);
            lemma_lacks(name, "cm2"@, 0);
        }
        KernelSelection::F16wRowBdaK16 => {
            reveal_strlit("f16w_row_bda_k16");
            lemma_lacks(name, "coopmat"@, 0);
            lemma_lacks(name, "cm2"@, 0);
        }
        KernelSelection::F16wRowBdaK16V2 => {
            reveal_strlit("f16w_row_bda_k16_v2");
            lemma_lacks(name, "coopmat"@, 0);
            lemma_lacks(name, "cm2"@, 0);
        }
        KernelSelection::F16wRowBdaK16Packed => {
            reveal_strlit("f16w_row_bda_k16_packed");
            lemma_lacks(name, "coopmat"@, 4);
            lemma_lacks(name, "cm2"@, 1);
        }
        KernelSelection::F16wRowBdaK16V2Packed => {
            reveal_strlit("f16w_row_bda_k16_v2_packed");
            lemma_lacks(name, "coopmat"@, 4);
            lemma_lacks(name, "cm2"@, 1);
        }
        KernelSelection::F16wCoopmat => {
            reveal_strlit("f16w_coopmat_aligned");
            lemma_lacks(name, "cm2"@, 2);
        }
        KernelSelection::F16wA16Coopmat => {
            reveal_strlit("f16w_a16_coopmat_aligned");
            lemma_lacks(name, "cm2"@, 2);
        }
        KernelSelection::F16wA16CoopmatM64 => {
            reveal_strlit("f16w_a16_coopmat_m64");
            lemma_lacks(name, "cm2"@, 2);
        }
        _ => {}
    }
}

/// Where the workgroup memory of the kernels that demoting ends in fits the
/// device, every f32 shape routes; and every f16-weight shape too, where the
/// device has f16 storage.
pub proof fn roomy_device_routes(p: PipelineView, shared_bytes: Seq<u32>)
    requires
        shared_bytes.len() == KERNEL_COUNT,
        p.present == present_of(p.ctx, shared_bytes),
    ensures
        (forall|s: KernelSelection|
            s is Small || s is M64N32 || s is SmallBdaV4 || s is M64N32Bda || s is RowBda || s is ColBda || s is OuterBda
                ==> #[trigger] shared_bytes[s.index_of()->0 as int] <= p.ctx.workgroup_shared_budget)
            ==> p.routes(false),
        p.ctx.f16_storage_enabled && (forall|s: KernelSelection|
            s is F16wSmallBdaV4 || s is F16wRowBdaK16 || s is F16wRowBdaK16V2 || s is F16wRowBdaK16Packed || s is F16wRowBdaK16V2Packed || s is F16wCoopmat || s is F16wA16Coopmat || s is F16wA16CoopmatM64
                ==> #[trigger] shared_bytes[s.index_of()->0 as int] <= p.ctx.workgroup_shared_budget)
            ==> p.routes(true),
{
    let budget = p.ctx.workgroup_shared_budget;
    if shared_bytes[KernelSelection::Small.index_of()->0 as int] <= budget {
        lemma_plain_floor_ungated(p.ctx, KernelSelection::Small, shared_bytes[KernelSelection::Small.index_of()->0 as int]);
    }
    if shared_bytes[KernelSelection::M64N32.index_of()->0 as int] <= budget {
        lemma_plain_floor_ungated(p.ctx, KernelSelection::M64N32, shared_bytes[KernelSelection::M64N32.index_of()->0 as int]);
    }
    if shared_bytes[KernelSelection::SmallBdaV4.index_of()->0 as int] <= budget {
        lemma_plain_floor_ungated(p.ctx, KernelSelection::SmallBdaV4, shared_bytes[KernelSelection::SmallBdaV4.index_of()->0 as int]);
    }
    if shared_bytes[KernelSelection::M64N32Bda.index_of()->0 as int] <= budget {
        lemma_plain_floor_ungated(p.ctx, KernelSelection::M64N32Bda, shared_bytes[KernelSelection::M64N32Bda.index_of()->0 as int]);
    }
    if shared_bytes[KernelSelection::RowBda.index_of()->0 as int] <= budget {
        lemma_plain_floor_ungated(p.ctx, KernelSelection::RowBda, shared_bytes[KernelSelection::RowBda.index_of()->0 as int]);
    }
    if shared_bytes[KernelSelection::ColBda.index_of()->0 as int] <= budget {
        lemma_plain_floor_ungated(p.ctx, KernelSelection::ColBda, shared_bytes[KernelSelection::ColBda.index_of()->0 as int]);
    }
    if shared_bytes[KernelSelection::OuterBda.index_of()->0 as int] <= budget {
        lemma_plain_floor_ungated(p.ctx, KernelSelection::OuterBda, shared_bytes[KernelSelection::OuterBda.index_of()->0 as int]);
    }
    if p.ctx.f16_storage_enabled && shared_bytes[KernelSelection::F16wSmallBdaV4.index_of()->0 as int] <= budget {
        lemma_half_floor_ungated(p.ctx, KernelSelection::F16wSmallBdaV4, shared_bytes[KernelSelection::F16wSmallBdaV4.index_of()->0 as int]);
    }
    if p.ctx.f16_storage_enabled && shared_bytes[KernelSelection::F16wRowBdaK16.index_of()->0 as int] <= budget {
        lemma_half_floor_ungated(p.ctx, KernelSelection::F16wRowBdaK16, shared_bytes[KernelSelection::F16wRowBdaK16.index_of()->0 as int]);
    }
    if p.ctx.f16_storage_enabled && shared_bytes[KernelSelection::F16wRowBdaK16V2.index_of()->0 as int] <= budget {
        lemma_half_floor_ungated(p.ctx, KernelSelection::F16wRowBdaK16V2, shared_bytes[KernelSelection::F16wRowBdaK16V2.index_of()->0 as int]);
    }
    if p.ctx.f16_storage_enabled && shared_bytes[KernelSelection::F16wRowBdaK16Packed.index_of()->0 as int] <= budget {
        lemma_half_floor_ungated(p.ctx, KernelSelection::F16wRowBdaK16Packed, shared_bytes[KernelSelection::F16wRowBdaK16Packed.index_of()->0 as int]);
    }
    if p.ctx.f16_storage_enabled && shared_bytes[KernelSelection::F16wRowBdaK16V2Packed.index_of()->0 as int] <= budget {
        lemma_half_floor_ungated(p.ctx, KernelSelection::F16wRowBdaK16V2Packed, shared_bytes[KernelSelection::F16wRowBdaK16V2Packed.index_of()->0 as int]);
    }
    if p.ctx.f16_storage_enabled && p.ctx.coopmat_enabled && shared_bytes[KernelSelection::F16wCoopmat.index_of()->0 as int] <= budget {
        lemma_half_floor_ungated(p.ctx, KernelSelection::F16wCoopmat, shared_bytes[KernelSelection::F16wCoopmat.index_of()->0 as int]);
    }
    if p.ctx.f16_storage_enabled && p.ctx.coopmat_enabled && shared_bytes[KernelSelection::F16wA16Coopmat.index_of()->0 as int] <= budget {
        lemma_half_floor_ungated(p.ctx, KernelSelection::F16wA16Coopmat, shared_bytes[KernelSelection::F16wA16Coopmat.index_of()->0 as int]);
    }
    if p.ctx.f16_storage_enabled && p.ctx.coopmat_enabled && shared_bytes[KernelSelection::F16wA16CoopmatM64.index_of()->0 as int] <= budget {
        lemma_half_floor_ungated(p.ctx, KernelSelection::F16wA16CoopmatM64, shared_bytes[KernelSelection::F16wA16CoopmatM64.index_of()->0 as int]);
    }
}

} // verus!
