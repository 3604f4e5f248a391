//! Which kernels a shape is routed to.

use crate::executor::plan::{matmul_plan, shape_plan, slot_kernel};
use crate::matmul::resolution::ResolvedMatmul;
use crate::pipeline::catalog::{
    name_weights_f16, registry_index_round_trip, KernelSelection, KERNEL_COUNT,
};
use crate::pipeline::registry::{demoted, demotions, filled_slot, PipelineView};
use crate::pipeline::selection::{auto_choice_is_a_tile_class, min_large_tiles_of};
use crate::pipeline::tuning::TuneKey;
use vstd::prelude::*;

verus! {

/// The kernels that read B as half-precision numbers.
pub open spec fn reads_halves(kernel: KernelSelection) -> bool {
    match kernel {
        KernelSelection::F16wLargeBdaV4 => true,
        KernelSelection::F16wSmallBdaV4 => true,
        KernelSelection::F16wK64BdaV4 => true,
        KernelSelection::F16wM128N64K64BdaV4 => true,
        KernelSelection::F16wRowBda => true,
        KernelSelection::F16wRowBdaK16 => true,
        KernelSelection::F16wRowBdaK16V2 => true,
        KernelSelection::F16wRowBdaK16Packed => true,
        KernelSelection::F16wRowBdaK16V2Packed => true,
        KernelSelection::F16wCoopmat => true,
        KernelSelection::F16wCoopmatM64 => true,
        KernelSelection::F16wCoopmatM64N128 => true,
        KernelSelection::F16wCoopmatM128N64 => true,
        KernelSelection::F16wA16Coopmat => true,
        KernelSelection::F16wA16CoopmatM64 => true,
        KernelSelection::F16wA16CoopmatM64N128 => true,
        KernelSelection::F16wA16CoopmatM128N64 => true,
        KernelSelection::F16wCm2 => true,
        _ => false,
    }
}

/// The kernels that read B as half-precision numbers are those whose names say
/// so.
pub proof fn kernels_are_named_for_their_weights(kernel: KernelSelection)
    ensures
        name_weights_f16(kernel.spec_of().name@) <==> reads_halves(kernel),
{
    reveal_strlit("f16w_");
    match kernel {
        KernelSelection::Auto | KernelSelection::Large => {
            reveal_strlit("large_128");
            assert("large_128"@[0] != 'f');
        }
        KernelSelection::Small => {
            reveal_strlit("small_64");
            assert("small_64"@[0] != 'f');
        }
        KernelSelection::M64N128 => {
            reveal_strlit("m64n128");
            assert("m64n128"@[0] != 'f');
        }
        KernelSelection::M128N64 => {
            reveal_strlit("m128n64");
            assert("m128n64"@[0] != 'f');
        }
        KernelSelection::M128N64K64 => {
            reveal_strlit("m128n64k64");
            assert("m128n64k64"@[0] != 'f');
        }
        KernelSelection::M64N32 => {
            reveal_strlit("m64n32");
            assert("m64n32"@[0] != 'f');
        }
        KernelSelection::K64 => {
            reveal_strlit("k64");
            assert("k64"@[0] != 'f');
        }
        KernelSelection::Bk16 => {
            reveal_strlit("bk16_128x128");
            assert("bk16_128x128"@[0] != 'f');
        }
        KernelSelection::V2 => {
            reveal_strlit("v2_128x128_bk8");
            assert("v2_128x128_bk8"@[0] != 'f');
        }
        KernelSelection::M64N128K64 => {
            reveal_strlit("m64n128k64");
            assert("m64n128k64"@[0] != 'f');
        }
        KernelSelection::M128N128T4 => {
            reveal_strlit("m128n128_t4");
            assert("m128n128_t4"@[0] != 'f');
        }
        KernelSelection::M256N64 => {
            reveal_strlit("m256n64");
            assert("m256n64"@[0] != 'f');
        }
        KernelSelection::V3 => {
            reveal_strlit("v3_128x128_bk8_static");
            assert("v3_128x128_bk8_static"@[0] != 'f');
        }
        KernelSelection::LargeBda => {
            reveal_strlit("large_bda");
            assert("large_bda"@[0] != 'f');
        }
        KernelSelection::M128N64K64Bda => {
            reveal_strlit("m128n64k64_bda");
            assert("m128n64k64_bda"@[0] != 'f');
        }
        KernelSelection::K64Bda => {
            reveal_strlit("k64_bda");
            assert("k64_bda"@[0] != 'f');
        }
        KernelSelection::SmallBda => {
            reveal_strlit("small_bda");
            assert("small_bda"@[0] != 'f');
        }
        KernelSelection::M64N32Bda => {
            reveal_strlit("m64n32_bda");
            assert("m64n32_bda"@[0] != 'f');
        }
        KernelSelection::M128N64Bda => {
            reveal_strlit("m128n64_bda");
            assert("m128n64_bda"@[0] != 'f');
        }
        KernelSelection::M64N128Bda => {
            reveal_strlit("m64n128_bda");
            assert("m64n128_bda"@[0] != 'f');
        }
        KernelSelection::LargeBdaV4 => {
            reveal_strlit("large_bda_v4");
            assert("large_bda_v4"@[0] != 'f');
        }
        KernelSelection::M128N64K64BdaV4 => {
            reveal_strlit("m128n64k64_bda_v4");
            assert("m128n64k64_bda_v4"@[0] != 'f');
        }
        KernelSelection::SmallBdaV4 => {
            reveal_strlit("small_bda_v4");
            assert("small_bda_v4"@[0] != 'f');
        }
        KernelSelection::K64BdaV4 => {
            reveal_strlit("k64_bda_v4");
            assert("k64_bda_v4"@[0] != 'f');
        }
        KernelSelection::M128N64BdaV4 => {
            reveal_strlit("m128n64_bda_v4");
            assert("m128n64_bda_v4"@[0] != 'f');
        }
        KernelSelection::M64N128BdaV4 => {
            reveal_strlit("m64n128_bda_v4");
            assert("m64n128_bda_v4"@[0] != 'f');
        }
        KernelSelection::Bk16BdaV4 => {
            reveal_strlit("bk16_bda_v4");
            assert("bk16_bda_v4"@[0] != 'f');
        }
        KernelSelection::M128N64K64BdaV4Tm8Tn8 => {
            reveal_strlit("m128n64k64_bda_v4_tm8_tn8");
            assert("m128n64k64_bda_v4_tm8_tn8"@[0] != 'f');
        }
        KernelSelection::M128N64K64BdaV4Tm16Tn4 => {
            reveal_strlit("m128n64k64_bda_v4_tm16_tn4");
            assert("m128n64k64_bda_v4_tm16_tn4"@[0] != 'f');
        }
        KernelSelection::K64BdaV4Tm8Tn4 => {
            reveal_strlit("k64_bda_v4_tm8_tn4");
            assert("k64_bda_v4_tm8_tn4"@[0] != 'f');
        }
        KernelSelection::K64BdaV4Tm4Tn8 => {
            reveal_strlit("k64_bda_v4_tm4_tn8");
            assert("k64_bda_v4_tm4_tn8"@[0] != 'f');
        }
        KernelSelection::K64BdaV4Tm8Tn8 => {
            reveal_strlit("k64_bda_v4_tm8_tn8");
            assert("k64_bda_v4_tm8_tn8"@[0] != 'f');
        }
        KernelSelection::LargeBdaV4Aligned => {
            reveal_strlit("large_bda_v4_aligned");
            assert("large_bda_v4_aligned"@[0] != 'f');
        }
        KernelSelection::M128N64K64BdaV4Aligned => {
            reveal_strlit("m128n64k64_bda_v4_aligned");
            assert("m128n64k64_bda_v4_aligned"@[0] != 'f');
        }
        KernelSelection::RowBda => {
            reveal_strlit("row_bda");
            assert("row_bda"@[0] != 'f');
        }
        KernelSelection::ColBda => {
            reveal_strlit("col_bda");
            assert("col_bda"@[0] != 'f');
        }
        KernelSelection::OuterBda => {
            reveal_strlit("outer_bda");
            assert("outer_bda"@[0] != 'f');
        }
        KernelSelection::F16wLargeBdaV4 => {
            reveal_strlit("f16w_large_bda_v4");
            assert("f16w_large_bda_v4"@.subrange(0, 5) =~= "f16w_"@);
        }
        KernelSelection::F16wSmallBdaV4 => {
            reveal_strlit("f16w_small_bda_v4");
            assert("f16w_small_bda_v4"@.subrange(0, 5) =~= "f16w_"@);
        }
        KernelSelection::F16wK64BdaV4 => {
            reveal_strlit("f16w_k64_bda_v4");
            assert("f16w_k64_bda_v4"@.subrange(0, 5) =~= "f16w_"@);
        }
        KernelSelection::F16wM128N64K64BdaV4 => {
            reveal_strlit("f16w_m128n64k64_bda_v4");
            assert("f16w_m128n64k64_bda_v4"@.subrange(0, 5) =~= "f16w_"@);
        }
        KernelSelection::F16wRowBda => {
            reveal_strlit("f16w_row_bda");
            assert("f16w_row_bda"@.subrange(0, 5) =~= "f16w_"@);
        }
        KernelSelection::F16wRowBdaK16 => {
            reveal_strlit("f16w_row_bda_k16");
            assert("f16w_row_bda_k16"@.subrange(0, 5) =~= "f16w_"@);
        }
        KernelSelection::F16wRowBdaK16V2 => {
            reveal_strlit("f16w_row_bda_k16_v2");
            assert("f16w_row_bda_k16_v2"@.subrange(0, 5) =~= "f16w_"@);
        }
        KernelSelection::F16wRowBdaK16Packed => {
            reveal_strlit("f16w_row_bda_k16_packed");
            assert("f16w_row_bda_k16_packed"@.subrange(0, 5) =~= "f16w_"@);
        }
        KernelSelection::F16wRowBdaK16V2Packed => {
            reveal_strlit("f16w_row_bda_k16_v2_packed");
            assert("f16w_row_bda_k16_v2_packed"@.subrange(0, 5) =~= "f16w_"@);
        }
        KernelSelection::F16wCoopmat => {
            reveal_strlit("f16w_coopmat_aligned");
            assert("f16w_coopmat_aligned"@.subrange(0, 5) =~= "f16w_"@);
        }
        KernelSelection::F16wCoopmatM64 => {
            reveal_strlit("f16w_coopmat_m64");
            assert("f16w_coopmat_m64"@.subrange(0, 5) =~= "f16w_"@);
        }
        KernelSelection::F16wCoopmatM64N128 => {
            reveal_strlit("f16w_coopmat_m64n128");
            assert("f16w_coopmat_m64n128"@.subrange(0, 5) =~= "f16w_"@);
        }
        KernelSelection::F16wCoopmatM128N64 => {
            reveal_strlit("f16w_coopmat_m128n64");
            assert("f16w_coopmat_m128n64"@.subrange(0, 5) =~= "f16w_"@);
        }
        KernelSelection::F16wA16Coopmat => {
            reveal_strlit("f16w_a16_coopmat_aligned");
            assert("f16w_a16_coopmat_aligned"@.subrange(0, 5) =~= "f16w_"@);
        }
        KernelSelection::F16wA16CoopmatM64 => {
            reveal_strlit("f16w_a16_coopmat_m64");
            assert("f16w_a16_coopmat_m64"@.subrange(0, 5) =~= "f16w_"@);
        }
        KernelSelection::F16wA16CoopmatM64N128 => {
            reveal_strlit("f16w_a16_coopmat_m64n128");
            assert("f16w_a16_coopmat_m64n128"@.subrange(0, 5) =~= "f16w_"@);
        }
        KernelSelection::F16wA16CoopmatM128N64 => {
            reveal_strlit("f16w_a16_coopmat_m128n64");
            assert("f16w_a16_coopmat_m128n64"@.subrange(0, 5) =~= "f16w_"@);
        }
        KernelSelection::F16wCm2 => {
            reveal_strlit("f16w_cm2");
            assert("f16w_cm2"@.subrange(0, 5) =~= "f16w_"@);
        }
    }
    let name = kernel.spec_of().name@;
    if !reads_halves(kernel) && name.len() >= 5 {
        assert(name.subrange(0, 5)[0] == name[0]);
    }
}

proof fn lemma_filled(present: Seq<bool>, kernel: KernelSelection)
    requires
        filled_slot(present, kernel) is Some,
        !(kernel is Auto),
    ensures
        filled_slot(present, kernel)->0 < KERNEL_COUNT,
        present[filled_slot(present, kernel)->0 as int],
        reads_halves(KernelSelection::of_index(filled_slot(present, kernel)->0 as int))
            == reads_halves(kernel),
    decreases demotions(kernel),
{
    registry_index_round_trip(kernel, 0);
    let index = kernel.index_of()->0;
    if !present[index as int] {
        lemma_filled(present, demoted(kernel)->0);
    }
}

/// The shape heuristic ends in a kernel that reads B as it is stored, and so
/// does it for a product with a fused epilogue.
pub proof fn heuristic_reads_the_weights(
    p: PipelineView,
    batch: u32,
    m: u32,
    n: u32,
    k: u32,
    b_f16: bool,
)
    ensures
        p.heuristic_slot(batch, m, n, k, b_f16) matches Some(slot) ==> slot < KERNEL_COUNT
            && reads_halves(KernelSelection::of_index(slot as int)) == b_f16,
        p.epilogue_slot(batch, m, n, k, b_f16) matches Some(slot) ==> slot < KERNEL_COUNT
            && reads_halves(KernelSelection::of_index(slot as int)) == b_f16,
{
    let tile = crate::pipeline::selection::auto_choice(
        batch,
        m,
        n,
        k,
        min_large_tiles_of(p.ctx.device_kind),
    );
    auto_choice_is_a_tile_class(batch, m, n, k, min_large_tiles_of(p.ctx.device_kind));
    let choice = crate::pipeline::registry::tiled_choice(p.ctx, batch, m, n, k, b_f16);
    assert(!(choice is Auto) && reads_halves(choice) == b_f16);
    if filled_slot(p.present, choice) is Some {
        lemma_filled(p.present, choice);
    }
    if let Some(gemv) = crate::pipeline::registry::gemv_choice(m, n, k, b_f16) {
        assert(!(gemv is Auto) && reads_halves(gemv) == b_f16);
        registry_index_round_trip(gemv, 0);
    }
    let sibling = if b_f16 {
        crate::pipeline::routing::f16w_sibling(tile)
    } else {
        crate::pipeline::routing::bda_sibling(tile)
    };
    assert(!(sibling is Auto) && reads_halves(sibling) == b_f16);
    if filled_slot(p.present, sibling) is Some {
        lemma_filled(p.present, sibling);
    }
    registry_index_round_trip(KernelSelection::F16wCm2, 0);
}

/// Where nothing was measured and nothing selected, a matmul that has a kernel
/// is routed to one that reads its B as it is stored, and is not packed unless
/// B is.
pub proof fn unmeasured_routes_read_the_weights(p: PipelineView, dims: ResolvedMatmul, eligible: bool)
    requires
        p.selection is Auto,
        !p.tuned.contains_key(
            TuneKey {
                batch: dims.batch,
                m: dims.m,
                n: dims.n,
                k: dims.k,
                b_f16: dims.b_f16,
            },
        ),
        dims.a_f16 ==> dims.b_f16,
        dims.packed_b ==> dims.b_f16,
        !dims.packed_b && !dims.a_f16 ==> p.heuristic_slot(
            dims.batch,
            dims.m,
            dims.n,
            dims.k,
            dims.b_f16,
        ) is Some,
        matmul_plan(p, dims, eligible) is Ok,
    ensures
        ({
            let plan = matmul_plan(p, dims, eligible)->Ok_0;
            &&& plan.kernel < KERNEL_COUNT
            &&& name_weights_f16(slot_kernel(plan.kernel).name@) == dims.b_f16
            &&& dims.packed_b || dims.a_f16 ==> plan.splitk2 is None
        }),
{
    let plan = matmul_plan(p, dims, eligible)->Ok_0;
    heuristic_reads_the_weights(p, dims.batch, dims.m, dims.n, dims.k, dims.b_f16);
    registry_index_round_trip(KernelSelection::F16wRowBdaK16Packed, 0);
    registry_index_round_trip(KernelSelection::F16wRowBdaK16V2Packed, 0);
    registry_index_round_trip(KernelSelection::F16wA16Coopmat, 0);
    registry_index_round_trip(KernelSelection::F16wA16CoopmatM64, 0);
    kernels_are_named_for_their_weights(KernelSelection::of_index(plan.kernel as int));
}

/// A measured shape takes its winner's kernel, and its split where the shape
/// may be split; without a measurement only a discrete GPU splits; and no f16
/// weights, no explicit selection and no device without addresses ever do.
pub proof fn measurements_decide_routes(
    p: PipelineView,
    batch: u32,
    m: u32,
    n: u32,
    k: u32,
    b_f16: bool,
    eligible: bool,
)
    ensures
        ({
            let plan = shape_plan(p, batch, m, n, k, b_f16, eligible);
            let key = TuneKey { batch, m, n, k, b_f16 };
            &&& plan.splitk2 is Some ==> {
                &&& eligible && !b_f16 && p.selection is Auto
                &&& p.ctx.buffer_device_address_enabled
                &&& p.tuned.contains_key(key) || p.ctx.device_kind
                    == crate::context::DeviceKind::DiscreteGpu
                &&& 2 <= plan.splitk2->0 <= k
            }
            &&& p.selection is Auto && p.tuned.contains_key(key) ==> {
                &&& plan.kernel == p.tuned[key].kernel
                &&& plan.splitk2 is Some ==> plan.splitk2 == p.tuned[key].splitk2_splits
                &&& plan.splitk2 is None && eligible && !b_f16
                    && p.ctx.buffer_device_address_enabled ==> (p.tuned[key].splitk2_splits
                    matches Some(splits) ==> !crate::executor::splitk2::auto_fits(
                    p.ctx.max_groups_x,
                    p.ctx.max_groups_y,
                    p.ctx.max_groups_z,
                    batch,
                    m,
                    n,
                    k,
                    splits,
                ))
            }
        }),
{
}

} // verus!
