//! The kernel registry, the heuristic and the routes.

use std::collections::{HashMap, HashSet};

use tensor_ash::context::DeviceKind;
use tensor_ash::context::DeviceKind::{Cpu, DiscreteGpu, IntegratedGpu, Other, VirtualGpu};
use tensor_ash::pipeline::abi::{EpilogueKey, KernelVariant};
use tensor_ash::pipeline::catalog::{KernelSelection, KERNEL_COUNT};
use tensor_ash::pipeline::routing::CoopmatTile::{T128, T128x64, T64, T64x128};
use tensor_ash::pipeline::routing::{
    coopmat_prefers_m64, coopmat_selection, coopmat_tile, f16w_row_packed_selection,
    f16w_row_selection, f16w_row_tile_n, maybe_to_bda, to_f16w,
};
use tensor_ash::pipeline::selection::{
    auto_min_large_tiles_for, auto_select_kernel, auto_selects_small_kernel,
};
use tensor_ash::pipeline::two_tile;

const KERNEL_ALIASES: &[(&str, KernelSelection)] = &[
    ("", KernelSelection::Auto),
    ("auto", KernelSelection::Auto),
    ("large", KernelSelection::Large),
    ("large_128", KernelSelection::Large),
    ("128", KernelSelection::Large),
    ("small", KernelSelection::Small),
    ("small_64", KernelSelection::Small),
    ("64", KernelSelection::Small),
    ("m64n128", KernelSelection::M64N128),
    ("64x128", KernelSelection::M64N128),
    ("wide", KernelSelection::M64N128),
    ("m128n64", KernelSelection::M128N64),
    ("128x64", KernelSelection::M128N64),
    ("tall", KernelSelection::M128N64),
    ("m128n64k64", KernelSelection::M128N64K64),
    ("128x64k64", KernelSelection::M128N64K64),
    ("m64n32", KernelSelection::M64N32),
    ("64x32", KernelSelection::M64N32),
    ("k64", KernelSelection::K64),
    ("small_k64", KernelSelection::K64),
    ("64k", KernelSelection::K64),
    ("bk16", KernelSelection::Bk16),
    ("128x128bk16", KernelSelection::Bk16),
    ("v2", KernelSelection::V2),
    ("128x128bk8", KernelSelection::V2),
    ("sota", KernelSelection::V2),
    ("m64n128k64", KernelSelection::M64N128K64),
    ("64x128k64", KernelSelection::M64N128K64),
    ("m128n128_t4", KernelSelection::M128N128T4),
    ("128x128_t4", KernelSelection::M128N128T4),
    ("m256n64", KernelSelection::M256N64),
    ("256x64", KernelSelection::M256N64),
    ("v3", KernelSelection::V3),
    ("128x128bk8static", KernelSelection::V3),
    ("large_bda", KernelSelection::LargeBda),
    ("128x128_bda", KernelSelection::LargeBda),
    ("m128n64k64_bda", KernelSelection::M128N64K64Bda),
    ("128x64k64_bda", KernelSelection::M128N64K64Bda),
    ("k64_bda", KernelSelection::K64Bda),
    ("small_bda", KernelSelection::SmallBda),
    ("64_bda", KernelSelection::SmallBda),
    ("m64n32_bda", KernelSelection::M64N32Bda),
    ("64x32_bda", KernelSelection::M64N32Bda),
    ("m128n64_bda", KernelSelection::M128N64Bda),
    ("m64n128_bda", KernelSelection::M64N128Bda),
    ("large_bda_v4", KernelSelection::LargeBdaV4),
    ("m128n64k64_bda_v4", KernelSelection::M128N64K64BdaV4),
    ("small_bda_v4", KernelSelection::SmallBdaV4),
    ("k64_bda_v4", KernelSelection::K64BdaV4),
    ("m128n64_bda_v4", KernelSelection::M128N64BdaV4),
    ("m64n128_bda_v4", KernelSelection::M64N128BdaV4),
    ("bk16_bda_v4", KernelSelection::Bk16BdaV4),
    ("128x128bk16_bda_v4", KernelSelection::Bk16BdaV4),
    ("m128n64k64_bda_v4_tm8_tn8", KernelSelection::M128N64K64BdaV4Tm8Tn8),
    ("m128n64k64_bda_v4_tm16_tn4", KernelSelection::M128N64K64BdaV4Tm16Tn4),
    ("k64_bda_v4_tm8_tn4", KernelSelection::K64BdaV4Tm8Tn4),
    ("k64_bda_v4_tm4_tn8", KernelSelection::K64BdaV4Tm4Tn8),
    ("k64_bda_v4_tm8_tn8", KernelSelection::K64BdaV4Tm8Tn8),
    ("large_bda_v4_aligned", KernelSelection::LargeBdaV4Aligned),
    ("128x128_bda_v4_aligned", KernelSelection::LargeBdaV4Aligned),
    ("m128n64k64_bda_v4_aligned", KernelSelection::M128N64K64BdaV4Aligned),
    ("row_bda", KernelSelection::RowBda),
    ("row", KernelSelection::RowBda),
    ("gemv_bda", KernelSelection::RowBda),
    ("col_bda", KernelSelection::ColBda),
    ("col", KernelSelection::ColBda),
    ("gemv_col_bda", KernelSelection::ColBda),
    ("outer_bda", KernelSelection::OuterBda),
    ("outer", KernelSelection::OuterBda),
    ("k1", KernelSelection::OuterBda),
    ("f16w_large_bda_v4", KernelSelection::F16wLargeBdaV4),
    ("f16w_large", KernelSelection::F16wLargeBdaV4),
    ("f16w_small_bda_v4", KernelSelection::F16wSmallBdaV4),
    ("f16w_small", KernelSelection::F16wSmallBdaV4),
    ("f16w_k64_bda_v4", KernelSelection::F16wK64BdaV4),
    ("f16w_k64", KernelSelection::F16wK64BdaV4),
    ("f16w_m128n64k64_bda_v4", KernelSelection::F16wM128N64K64BdaV4),
    ("f16w_m128n64k64", KernelSelection::F16wM128N64K64BdaV4),
    ("f16w_row_bda", KernelSelection::F16wRowBda),
    ("f16w_row", KernelSelection::F16wRowBda),
    ("f16w_row_bda_k16", KernelSelection::F16wRowBdaK16),
    ("f16w_row_bda_k16_v2", KernelSelection::F16wRowBdaK16V2),
    ("f16w_row_bda_k16_packed", KernelSelection::F16wRowBdaK16Packed),
    ("f16w_row_bda_k16_v2_packed", KernelSelection::F16wRowBdaK16V2Packed),
    ("f16w_coopmat_aligned", KernelSelection::F16wCoopmat),
    ("f16w_coopmat", KernelSelection::F16wCoopmat),
    ("f16w_coopmat_m64", KernelSelection::F16wCoopmatM64),
    ("f16w_coopmat_m64n128", KernelSelection::F16wCoopmatM64N128),
    ("f16w_coopmat_m128n64", KernelSelection::F16wCoopmatM128N64),
    ("f16w_a16_coopmat_aligned", KernelSelection::F16wA16Coopmat),
    ("f16w_a16_coopmat", KernelSelection::F16wA16Coopmat),
    ("f16w_a16_coopmat_m64", KernelSelection::F16wA16CoopmatM64),
    ("f16w_a16_coopmat_m64n128", KernelSelection::F16wA16CoopmatM64N128),
    ("f16w_a16_coopmat_m128n64", KernelSelection::F16wA16CoopmatM128N64),
    ("f16w_cm2", KernelSelection::F16wCm2),
];

fn concrete_selections() -> Vec<KernelSelection> {
    (0..KERNEL_COUNT).map(KernelSelection::at_index).collect()
}

fn min_large_tiles(kind: DeviceKind) -> u64 {
    auto_min_large_tiles_for(kind)
}

#[test]
fn kernel_variant_indices_are_bijective() {
    let mut seen = [false; KernelVariant::COUNT];
    for idx in 0..KernelVariant::COUNT {
        let variant = KernelVariant::from_index(idx);
        assert_eq!(variant.index(), idx, "round-trip broken for index {idx}");
        assert!(!seen[variant.index()], "duplicate index {idx}");
        seen[variant.index()] = true;
    }
    assert!(seen.into_iter().all(|value| value));
}

#[test]
fn fallback_preserves_semantics_and_drops_alignment_assumptions() {
    for idx in 0..KernelVariant::COUNT {
        let variant = KernelVariant::from_index(idx);
        let fallback = variant.fallback();
        assert_eq!(fallback.accumulate, variant.accumulate);
        assert_eq!(fallback.alpha_is_one, variant.alpha_is_one);
        assert!(!fallback.interior_only);
        assert!(!fallback.k_multiple);
        assert!(fallback.index() < KernelVariant::FALLBACK_COUNT);
    }
}

#[test]
fn every_concrete_selection_maps_to_exactly_one_spec() {
    let selections = concrete_selections();
    assert_eq!(selections.len(), KERNEL_COUNT);
    assert_eq!(KernelSelection::Auto.index(), None);

    let mut seen = vec![false; KERNEL_COUNT];
    for (expected, selection) in selections.iter().copied().enumerate() {
        let index = selection.index().expect("concrete selection has an index");
        assert_eq!(index, expected, "registry order drift for {selection:?}");
        assert!(!seen[index], "duplicate registry index {index}");
        seen[index] = true;
    }
    assert!(seen.into_iter().all(|value| value));
}

#[test]
fn every_alias_parses_case_insensitively_and_unambiguously() {
    let mut aliases = HashMap::new();
    for &(alias, expected) in KERNEL_ALIASES {
        let normalized = alias.trim().to_ascii_lowercase();
        assert_eq!(alias, normalized, "catalog aliases must be normalized");
        assert_eq!(KernelSelection::parse(alias).unwrap(), expected, "{alias}");
        assert_eq!(
            KernelSelection::parse(&format!("  {}  ", alias.to_ascii_uppercase())).unwrap(),
            expected,
            "{alias}"
        );
        assert!(
            aliases.insert(normalized, expected).is_none(),
            "duplicate alias {alias}"
        );
    }
    assert!(KernelSelection::parse("wideish").is_err());
}

#[test]
fn registry_names_are_unique() {
    let mut names = HashSet::new();
    for spec in concrete_selections().into_iter().map(|s| s.kernel_spec()) {
        assert!(
            names.insert(spec.name),
            "duplicate kernel name {}",
            spec.name
        );
    }
}

#[test]
fn mod_bda_promotion_covers_every_auto_target() {
    // The auto-selector's possible returns should each promote to
    // their BDA_V4 sibling (or BDA for TN=2 / unchanged when no
    // BDA path exists).  Listing them explicitly here keeps the
    // rule from silently drifting when new kernels land.
    assert_eq!(
        maybe_to_bda(KernelSelection::Large),
        KernelSelection::LargeBdaV4
    );
    assert_eq!(
        maybe_to_bda(KernelSelection::Small),
        KernelSelection::SmallBdaV4
    );
    assert_eq!(
        maybe_to_bda(KernelSelection::M128N64K64),
        KernelSelection::M128N64K64BdaV4
    );
    assert_eq!(
        maybe_to_bda(KernelSelection::K64),
        KernelSelection::K64BdaV4Tm8Tn4
    );
    assert_eq!(
        maybe_to_bda(KernelSelection::M128N64),
        KernelSelection::M128N64BdaV4
    );
    assert_eq!(
        maybe_to_bda(KernelSelection::M64N128),
        KernelSelection::M64N128BdaV4
    );
    // TN=2 stays on the plain BDA path (no V4 sibling).
    assert_eq!(
        maybe_to_bda(KernelSelection::M64N32),
        KernelSelection::M64N32Bda
    );
    // No BDA sibling at all — pass through.
    assert_eq!(maybe_to_bda(KernelSelection::Bk16), KernelSelection::Bk16);
    assert_eq!(maybe_to_bda(KernelSelection::V2), KernelSelection::V2);
}

#[test]
fn mod_coopmat_tile_tracks_4060_prefill_ab() {
    // q/o 512x2048: 4:1 is not strictly wider than 4:1 → 64x64.
    assert_eq!(coopmat_tile(1, 512, 2048), Some(T64));
    assert_eq!(coopmat_tile(1, 128, 2048), Some(T64));
    assert_eq!(coopmat_tile(1, 256, 384), Some(T64));
    // Concat QKV 512x2560 and gate/up 512x5632: 128x64 won.
    assert_eq!(coopmat_tile(1, 512, 2560), Some(T128x64));
    assert_eq!(coopmat_tile(1, 512, 5632), Some(T128x64));
    // Large squares keep 128x128 (3070 4096³ winner, untested here).
    assert_eq!(coopmat_tile(1, 2048, 2048), Some(T128));
    assert_eq!(coopmat_tile(1, 1024, 1024), Some(T64));
    // 64-aligned but not 128-aligned has no 128-tile route.
    assert_eq!(coopmat_tile(1, 192, 320), Some(T64));
    assert_eq!(coopmat_tile(1, 192, 300), None);
}

#[test]
fn mod_packed_tile_n_matches_packed_selection() {
    let check = |k, n, want, tile| {
        assert_eq!(f16w_row_packed_selection(k, n), want, "k={k} n={n}");
        assert_eq!(f16w_row_tile_n(k, n), tile, "tile k={k} n={n}");
    };
    check(2048, 256, KernelSelection::F16wRowBdaK16Packed, 32);
    check(2048, 2048, KernelSelection::F16wRowBdaK16Packed, 32);
    check(2048, 5632, KernelSelection::F16wRowBdaK16V2Packed, 64);
    check(2048, 32000, KernelSelection::F16wRowBdaK16V2Packed, 64);
    // Wide-N but not a 64-multiple: fall back to k16 / tile 32.
    check(2048, 5200, KernelSelection::F16wRowBdaK16Packed, 32);
}

#[test]
fn routing_bda_promotion_covers_every_auto_target() {
    // The auto-selector's possible returns should each promote to
    // their BDA_V4 sibling (or BDA for TN=2 / unchanged when no
    // BDA path exists).  Listing them explicitly here keeps the
    // rule from silently drifting when new kernels land.
    assert_eq!(
        maybe_to_bda(KernelSelection::Large),
        KernelSelection::LargeBdaV4
    );
    assert_eq!(
        maybe_to_bda(KernelSelection::Small),
        KernelSelection::SmallBdaV4
    );
    assert_eq!(
        maybe_to_bda(KernelSelection::M128N64K64),
        KernelSelection::M128N64K64BdaV4
    );
    assert_eq!(
        maybe_to_bda(KernelSelection::K64),
        KernelSelection::K64BdaV4Tm8Tn4
    );
    assert_eq!(
        maybe_to_bda(KernelSelection::M128N64),
        KernelSelection::M128N64BdaV4
    );
    assert_eq!(
        maybe_to_bda(KernelSelection::M64N128),
        KernelSelection::M64N128BdaV4
    );
    // TN=2 stays on the plain BDA path (no V4 sibling).
    assert_eq!(
        maybe_to_bda(KernelSelection::M64N32),
        KernelSelection::M64N32Bda
    );
    // No BDA sibling at all — pass through.
    assert_eq!(maybe_to_bda(KernelSelection::Bk16), KernelSelection::Bk16);
    assert_eq!(maybe_to_bda(KernelSelection::V2), KernelSelection::V2);
}

#[test]
fn routing_coopmat_tile_tracks_4060_prefill_ab() {
    // q/o 512x2048: 4:1 is not strictly wider than 4:1 → 64x64.
    assert_eq!(coopmat_tile(1, 512, 2048), Some(T64));
    assert_eq!(coopmat_tile(1, 128, 2048), Some(T64));
    assert_eq!(coopmat_tile(1, 256, 384), Some(T64));
    // Concat QKV 512x2560 and gate/up 512x5632: 128x64 won.
    assert_eq!(coopmat_tile(1, 512, 2560), Some(T128x64));
    assert_eq!(coopmat_tile(1, 512, 5632), Some(T128x64));
    // Large squares keep 128x128 (3070 4096³ winner, untested here).
    assert_eq!(coopmat_tile(1, 2048, 2048), Some(T128));
    assert_eq!(coopmat_tile(1, 1024, 1024), Some(T64));
    // 64-aligned but not 128-aligned has no 128-tile route.
    assert_eq!(coopmat_tile(1, 192, 320), Some(T64));
    assert_eq!(coopmat_tile(1, 192, 300), None);
}

#[test]
fn routing_packed_tile_n_matches_packed_selection() {
    let check = |k, n, want, tile| {
        assert_eq!(f16w_row_packed_selection(k, n), want, "k={k} n={n}");
        assert_eq!(f16w_row_tile_n(k, n), tile, "tile k={k} n={n}");
    };
    check(2048, 256, KernelSelection::F16wRowBdaK16Packed, 32);
    check(2048, 2048, KernelSelection::F16wRowBdaK16Packed, 32);
    check(2048, 5632, KernelSelection::F16wRowBdaK16V2Packed, 64);
    check(2048, 32000, KernelSelection::F16wRowBdaK16V2Packed, 64);
    // Wide-N but not a 64-multiple: fall back to k16 / tile 32.
    check(2048, 5200, KernelSelection::F16wRowBdaK16Packed, 32);
}

#[test]
fn selection_auto_selector_prefers_small_for_edge_or_small_shapes() {
    let t = 256u64;
    assert!(auto_selects_small_kernel(1023, 2048, 1024, t));
    assert!(auto_selects_small_kernel(2048, 1025, 1024, t));
    assert!(auto_selects_small_kernel(2048, 2048, 64, t));
    assert!(auto_selects_small_kernel(512, 512, 512, t));
    assert!(auto_selects_small_kernel(1024, 1024, 1024, t));
    assert!(!auto_selects_small_kernel(2048, 2048, 128, t));
    assert!(!auto_selects_small_kernel(2048, 2048, 2048, t));
    assert!(!auto_selects_small_kernel(4096, 1024, 1024, t));
    assert!(!auto_selects_small_kernel(1024, 4096, 1024, t));
}

#[test]
fn auto_threshold_tracks_device_kind() {
    assert_eq!(min_large_tiles(DiscreteGpu), 256);
    assert_eq!(min_large_tiles(IntegratedGpu), 64);
    assert_eq!(min_large_tiles(Cpu), u64::MAX);
    assert_eq!(min_large_tiles(VirtualGpu), u64::MAX);
    assert_eq!(min_large_tiles(Other), u64::MAX);

    assert!(auto_selects_small_kernel(1024, 1024, 1024, 256));
    assert!(!auto_selects_small_kernel(1024, 1024, 1024, 64));
}

#[test]
fn auto_selector_uses_specialized_variants_for_target_shapes() {
    assert_eq!(
        auto_select_kernel(1, 256, 256, 256, 256),
        KernelSelection::M64N32
    );
    assert_eq!(
        auto_select_kernel(1, 255, 257, 263, 256),
        KernelSelection::M64N32
    );
    assert_eq!(
        auto_select_kernel(4, 256, 256, 256, 256),
        KernelSelection::M64N32
    );
    assert_eq!(
        auto_select_kernel(1, 512, 256, 256, 256),
        KernelSelection::K64
    );
    assert_eq!(
        auto_select_kernel(1, 512, 512, 512, 256),
        KernelSelection::M128N64K64
    );
    assert_eq!(
        auto_select_kernel(1, 1024, 1024, 64, 256),
        KernelSelection::Small
    );
    assert_eq!(
        auto_select_kernel(1, 1024, 128, 512, 256),
        KernelSelection::K64
    );
    assert_eq!(
        auto_select_kernel(1, 128, 1024, 512, 256),
        KernelSelection::K64
    );
    assert_eq!(
        auto_select_kernel(1, 1024, 1024, 1024, 256),
        KernelSelection::M128N64K64
    );
    assert_eq!(
        auto_select_kernel(1, 2048, 2048, 512, 256),
        KernelSelection::M128N64K64
    );
    assert_eq!(
        auto_select_kernel(2, 512, 512, 512, 256),
        KernelSelection::Small
    );
    assert_eq!(
        auto_select_kernel(1, 2048, 2048, 2048, 256),
        KernelSelection::Large
    );
}

#[test]
fn pipeline_parses_kernel_selection() {
    assert_eq!(two_tile::KernelSelection::parse("").unwrap(), two_tile::KernelSelection::Auto);
    assert_eq!(
        two_tile::KernelSelection::parse("auto").unwrap(),
        two_tile::KernelSelection::Auto
    );
    assert_eq!(
        two_tile::KernelSelection::parse("large_128").unwrap(),
        two_tile::KernelSelection::Large
    );
    assert_eq!(
        two_tile::KernelSelection::parse("64").unwrap(),
        two_tile::KernelSelection::Small
    );
    assert!(two_tile::KernelSelection::parse("wide").is_err());
}

#[test]
fn pipeline_auto_selector_prefers_small_for_edge_or_small_shapes() {
    // Tile-misaligned M or N must always go small (large kernel can't
    // produce partial tiles).
    assert!(two_tile::auto_selects_small_kernel(1023, 2048, 1024));
    assert!(two_tile::auto_selects_small_kernel(2048, 1025, 1024));
    // Tiny K can't amortize the large kernel's fixed per-WG cost.
    assert!(two_tile::auto_selects_small_kernel(2048, 2048, 64));
    // Few large-tile workgroups: small kernel saturates the GPU
    // better.  64 large WGs at 1024^2, 16 at 512^2.
    assert!(two_tile::auto_selects_small_kernel(512, 512, 512));
    assert!(two_tile::auto_selects_small_kernel(1024, 1024, 1024));
    // Enough large-tile workgroups to saturate (>=256).
    assert!(!two_tile::auto_selects_small_kernel(2048, 2048, 128));
    assert!(!two_tile::auto_selects_small_kernel(2048, 2048, 2048));
    assert!(!two_tile::auto_selects_small_kernel(4096, 1024, 1024));
    assert!(!two_tile::auto_selects_small_kernel(1024, 4096, 1024));
}

#[test]
fn types_parses_kernel_selection() {
    assert_eq!(KernelSelection::parse("").unwrap(), KernelSelection::Auto);
    assert_eq!(
        KernelSelection::parse("auto").unwrap(),
        KernelSelection::Auto
    );
    assert_eq!(
        KernelSelection::parse("large_128").unwrap(),
        KernelSelection::Large
    );
    assert_eq!(
        KernelSelection::parse("64").unwrap(),
        KernelSelection::Small
    );
    assert_eq!(
        KernelSelection::parse("wide").unwrap(),
        KernelSelection::M64N128
    );
    assert_eq!(
        KernelSelection::parse("tall").unwrap(),
        KernelSelection::M128N64
    );
    assert_eq!(
        KernelSelection::parse("128x64k64").unwrap(),
        KernelSelection::M128N64K64
    );
    assert_eq!(
        KernelSelection::parse("64x32").unwrap(),
        KernelSelection::M64N32
    );
    assert_eq!(KernelSelection::parse("k64").unwrap(), KernelSelection::K64);
    assert!(KernelSelection::parse("wideish").is_err());
}

#[test]
fn kernel_variant_index_round_trip() {
    for idx in 0..KernelVariant::COUNT {
        let v = KernelVariant::from_index(idx);
        assert_eq!(v.index(), idx, "round-trip broken for idx {idx}");
    }
}

#[test]
fn kernel_variant_index_in_range() {
    let mut seen = [false; KernelVariant::COUNT];
    for accumulate in [false, true] {
        for alpha_is_one in [false, true] {
            for interior_only in [false, true] {
                for k_multiple in [false, true] {
                    let v = KernelVariant {
                        accumulate,
                        alpha_is_one,
                        interior_only,
                        k_multiple,
                    };
                    let idx = v.index();
                    assert!(idx < KernelVariant::COUNT);
                    assert!(!seen[idx], "duplicate index {idx}");
                    seen[idx] = true;
                }
            }
        }
    }
    assert!(seen.iter().all(|&b| b));
}

#[test]
fn kernel_selection_index_covers_every_spec() {
    for selection in [
        KernelSelection::Large,
        KernelSelection::Small,
        KernelSelection::M64N128,
        KernelSelection::M128N64,
        KernelSelection::M128N64K64,
        KernelSelection::M64N32,
        KernelSelection::K64,
    ] {
        let idx = selection.index().expect("non-Auto selection has an index");
        assert!(idx < KERNEL_COUNT, "index {idx} out of range");
    }
    assert_eq!(KernelSelection::Auto.index(), None);
}

#[test]
fn unknown_kernel_is_named_in_the_error() {
    let err = KernelSelection::parse("  WideIsh ").unwrap_err().to_string();
    assert!(err.starts_with("invalid ML_KERNEL 'wideish', expected one of auto, large, small"));
    let err = two_tile::KernelSelection::parse("wide").unwrap_err().to_string();
    assert_eq!(err, "invalid ML_KERNEL 'wide', expected auto, large, or small");
    assert_eq!(KernelSelection::from_env(None).unwrap(), KernelSelection::Auto);
    assert_eq!(KernelSelection::from_env(Some("V3")).unwrap(), KernelSelection::V3);
    // Unicode white space counts as space.
    assert_eq!(KernelSelection::parse("\u{2003}k64\u{a0}").unwrap(), KernelSelection::K64);
}

#[test]
fn kernel_names_decide_what_a_kernel_can_do() {
    let row = KernelSelection::F16wRowBdaK16V2Packed.kernel_spec();
    assert!(row.weights_f16() && row.packed() && row.supports_store() && row.supports_normed_a());
    assert!(row.supports_epilogue() && !row.coopmat() && !row.cm2() && !row.a_f16());
    let tile = KernelSelection::F16wA16CoopmatM64.kernel_spec();
    assert!(tile.a_f16() && tile.coopmat() && !tile.supports_epilogue() && !tile.supports_store());
    let aligned = KernelSelection::LargeBdaV4Aligned.kernel_spec();
    assert!(aligned.aligned_only() && !aligned.supports_epilogue());
    assert!(!KernelSelection::Large.kernel_spec().supports_epilogue());
    assert!(KernelSelection::F16wCm2.kernel_spec().supports_epilogue());
    assert!(KernelSelection::RowBda.kernel_spec().supports_normed_a());
    assert!(!KernelSelection::RowBda.kernel_spec().supports_store());
}

#[test]
fn coopmat_kernels_have_the_chosen_tile() {
    assert_eq!(coopmat_tile(1, 640, 192), Some(T128x64));
    assert_eq!(coopmat_tile(1, 576, 256), Some(T64x128));
    assert_eq!(
        coopmat_selection(1, 576, 256, true),
        Some(KernelSelection::F16wA16CoopmatM64N128)
    );
    assert_eq!(coopmat_selection(1, 2048, 2048, false), Some(KernelSelection::F16wCoopmat));
    assert_eq!(coopmat_selection(1, 100, 2048, false), None);
    assert_eq!(coopmat_tile(u32::MAX, 0xFFFF_FF80, 0xFFFF_FF80), Some(T128));
    assert!(coopmat_prefers_m64(1, 512, 2048));
    assert!(!coopmat_prefers_m64(1, 2048, 2048));
    for m in (64u32..=1024).step_by(64) {
        for n in (64u32..=1024).step_by(64) {
            let spec = coopmat_selection(1, m, n, false).unwrap().kernel_spec();
            assert_eq!((m % spec.tile_m, n % spec.tile_n), (0, 0), "{m}x{n}");
        }
    }
}

#[test]
fn row_kernels_match_their_shapes() {
    assert_eq!(f16w_row_selection(4096, 8192), KernelSelection::F16wRowBdaK16);
    assert_eq!(f16w_row_selection(2048, 8192), KernelSelection::F16wRowBdaK16V2);
    assert_eq!(to_f16w(KernelSelection::K64), KernelSelection::F16wK64BdaV4);
    assert_eq!(to_f16w(KernelSelection::M64N32), KernelSelection::F16wSmallBdaV4);
    for (k, n) in [(128, 64), (2048, 5632), (2048, 5200), (8192, 640), (1024, 1000)] {
        let spec = f16w_row_packed_selection(k, n).kernel_spec();
        assert_eq!(spec.tile_n, f16w_row_tile_n(k, n));
    }
}

#[test]
fn two_tile_pipeline_follows_its_selection() {
    let auto = two_tile::KernelSelection::Auto;
    assert_eq!(auto.select_kernel(2048, 2048, 2048), two_tile::KernelSelection::Large);
    assert_eq!(auto.select_kernel(2048, 2048, 64), two_tile::KernelSelection::Small);
    let small = two_tile::KernelSelection::Small;
    assert_eq!(small.select_kernel(2048, 2048, 2048), two_tile::KernelSelection::Small);
    for idx in 0..two_tile::KernelVariant::COUNT {
        assert_eq!(two_tile::KernelVariant::from_index(idx).index(), idx);
    }
    assert_eq!((two_tile::TILE_M, two_tile::TILE_N), (128, 128));
    assert_eq!((two_tile::SMALL_TILE_M, two_tile::SMALL_TILE_N), (64, 64));
}

#[test]
fn empty_epilogue_key_fuses_nothing() {
    let none = EpilogueKey::default();
    assert!(none.is_none());
    assert!(!EpilogueKey { store_mode: 1, ..none }.is_none());
    assert!(!EpilogueKey { bias: true, ..none }.is_none());
    assert!(!EpilogueKey { activation: 3, ..none }.is_none());
    assert!(!EpilogueKey { binary: 2, ..none }.is_none());
}
