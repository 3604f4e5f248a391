//! Schedules, splits, measurements and other planning arithmetic.

use tensor_ash::context::timestamp_delta;
use tensor_ash::executor::plan::DispatchInfo;
use tensor_ash::executor::recording::ensure_kernel_alignment;
use tensor_ash::executor::splitk::default_num_k_splits;
use tensor_ash::executor::splitk2::{
    auto_route_fits, checked_auto_scratch_end, heuristic_splits, resolve_auto_splits,
    stage1_dispatch_info, validate_scratch_geometry, AUTO_SCRATCH_CAP_BYTES,
};
use tensor_ash::executor::streamk_schedule::{stream_k_tail, StreamKSchedule};
use tensor_ash::executor::tuning::{
    candidate_at, measured_rounds, measurement_order, median, pick_split, pick_winner,
};

/// Stream-K pays where the last wave is a small enough part of a wave.
fn stream_k_should_fire(m: u32, n: u32, k: u32, sm_count: u32, tail_fraction_max: f64) -> bool {
    match stream_k_tail(m, n, k, sm_count) {
        Some((tail, wave)) => (tail as f64) / (wave as f64) < tail_fraction_max,
        None => false,
    }
}

#[test]
fn strict_aligned_kernels_require_every_tile_multiple() {
    let tile = [128, 128, 32];
    assert!(ensure_kernel_alignment("large_bda_v4_aligned", tile, tile).is_ok());
    for shape in [[127, 128, 32], [128, 127, 32], [128, 128, 31]] {
        let err = ensure_kernel_alignment("large_bda_v4_aligned", tile, shape)
            .unwrap_err()
            .to_string();
        assert!(err.contains("requires M/N/K aligned"));
    }
    assert!(ensure_kernel_alignment("large_bda_v4", tile, [1, 1, 1]).is_ok());
    let v3_tile = [128, 128, 8];
    assert!(ensure_kernel_alignment("v3_128x128_bk8_static", v3_tile, [128, 128, 16]).is_ok());
    for shape in [
        [127, 128, 16],
        [128, 127, 16],
        [128, 128, 8],
        [128, 128, 24],
    ] {
        assert!(ensure_kernel_alignment("v3_128x128_bk8_static", v3_tile, shape).is_err());
    }
}

#[test]
fn default_num_k_splits_picks_enough_for_few_tiles() {
    // 256x256x4096 with 128x128 tile: 4 tiles, want >= 64 WGs ->
    // 16 splits, each handling 256 K-elements.
    let splits = default_num_k_splits(1, 256, 256, 4096, 128, 128);
    assert_eq!(splits, 16);
    // 64x64x8192 with 64x64 tile: 1 tile, want >= 64 WGs -> 64
    // splits, each 128 K-elements.
    let splits = default_num_k_splits(1, 64, 64, 8192, 64, 64);
    assert_eq!(splits, 64);
    // 512x512 with 128x128 tile: 16 tiles already, no split.
    let splits = default_num_k_splits(1, 512, 512, 4096, 128, 128);
    assert_eq!(splits, 4);
}

#[test]
fn default_num_k_splits_caps_at_min_chunk_size() {
    // Tiny K=64 means at most 2 splits even if we wanted more.
    let splits = default_num_k_splits(1, 64, 64, 64, 64, 64);
    assert_eq!(splits, 2);
}

#[test]
fn scratch_geometry_rejects_empty_splits_and_uint_wrap() {
    assert!(validate_scratch_geometry(1, 64, 64, 64, 65).is_err());
    assert!(validate_scratch_geometry(1, 65_536, 65_536, 2, 2).is_err());
    assert!(validate_scratch_geometry(1, 32_768, 65_536, 2, 2).is_ok());
}

#[test]
fn dispatch_info_matches_stage1_tile_choice() {
    assert_eq!(stage1_dispatch_info(128, 128).1, [128, 128, 32]);
    assert_eq!(stage1_dispatch_info(127, 128).1, [64, 64, 32]);
}

#[test]
fn heuristic_targets_stage_occupancy_without_short_k_splits() {
    let cases = [
        ((1, 64, 64, 1024), Some(16)),
        ((1, 64, 64, 2048), Some(32)),
        ((1, 64, 128, 8192), Some(64)),
        ((4, 64, 64, 4096), Some(32)),
        ((1, 128, 128, 1024), Some(16)),
        ((1, 256, 256, 1024), None),
        ((1, 256, 256, 2048), Some(16)),
        ((1, 512, 512, 2048), None),
        ((1, 512, 512, 4096), Some(4)),
        ((1, 512, 512, 8192), Some(8)),
        ((1, 1024, 1024, 8192), None),
        ((1, 1, 4096, 8192), None),
        ((0, 64, 64, 1024), None),
    ];
    for ((batch, m, n, k), expected) in cases {
        assert_eq!(
            heuristic_splits(batch, m, n, k),
            expected,
            "{batch}x{m}x{n}x{k}"
        );
    }
}

#[test]
fn measured_route_or_dp_winner_precedes_heuristic() {
    assert_eq!(resolve_auto_splits(Some(Some(8)), Some(64)), Some(8));
    assert_eq!(resolve_auto_splits(Some(None), Some(64)), None);
    assert_eq!(resolve_auto_splits(None, Some(64)), Some(64));
    assert_eq!(resolve_auto_splits(None, None), None);
}

#[test]
fn auto_route_checks_grid_addressing_and_scratch_limits() {
    let ample = [u32::MAX; 3];
    assert!(auto_route_fits(ample, 1, 64, 64, 1024, 16));
    assert!(!auto_route_fits(ample, 0, 64, 64, 1024, 16));
    assert!(!auto_route_fits(ample, 1, 64, 64, 1024, 1));
    assert!(!auto_route_fits(ample, 1, 64, 64, 65_536, 65_536));
    assert!(!auto_route_fits(ample, 1, 64, 64, 8, 16));
    assert!(!auto_route_fits([1, 1, 15], 1, 64, 64, 1024, 16));
    assert!(!auto_route_fits([1, 1, u32::MAX], 1, 65, 64, 1024, 16));
    assert!(!auto_route_fits(
        [1, u32::MAX, u32::MAX],
        1,
        64,
        65,
        1024,
        16
    ));
    assert!(!auto_route_fits(
        [1, u32::MAX, u32::MAX],
        1,
        1025,
        64,
        1024,
        16
    ));
    assert!(!auto_route_fits(
        ample,
        u32::MAX,
        u32::MAX,
        u32::MAX,
        u32::MAX,
        2
    ));
    // 4 * 1024 * 1024 * 64 == the 256 MiB automatic budget.
    assert!(auto_route_fits(ample, 1, 1024, 1024, 4096, 64));
    assert!(!auto_route_fits(ample, 1, 1024, 1025, 4096, 64));
}

#[test]
fn graph_scratch_reservation_is_aligned_checked_and_capped() {
    assert_eq!(checked_auto_scratch_end(0, 1), Some(16));
    assert_eq!(
        checked_auto_scratch_end(AUTO_SCRATCH_CAP_BYTES - 16, 16),
        Some(AUTO_SCRATCH_CAP_BYTES)
    );
    assert_eq!(checked_auto_scratch_end(AUTO_SCRATCH_CAP_BYTES, 1), None);
    assert_eq!(checked_auto_scratch_end(u64::MAX - 7, 8), None);
    assert_eq!(checked_auto_scratch_end(0, u64::MAX), None);
}

#[test]
fn hybrid_schedule_for_aligned_4096_cube() {
    // 4096^3 / 128x128/BK=32: m_tiles=32, n_tiles=32, T=1024.
    // G_pref=92.  Raw dp = 11*92 = 1012, then rounded down to a
    // multiple of n_tiles=32: 992 = 31 full rows.  Tail = 32 tiles.
    // The round-down keeps the DP dispatch a clean 2D rectangle so
    // the dispatcher can use the branchless BDA_V4 kernel — see
    // `for_shape` for the motivation.
    // iters_per_tile=128; total_iters_sk = 32*128 = 4096.
    let s = StreamKSchedule::for_shape(4096, 4096, 4096, 128, 128, 32, 46);
    assert_eq!(s.iters_per_tile, 128);
    assert_eq!(s.n_tiles, 32);
    assert_eq!(s.dp_tiles_total, 992);
    assert_eq!(s.g_sk, 92);
    assert_eq!(s.total_iters_sk, 32 * 128);
    let total_iters = 32 * 128;
    assert_eq!(s.iters_per_wg_sk, total_iters / 92);
    assert_eq!(s.rem_sk, total_iters - (total_iters / 92) * 92);
    assert_eq!(s.grid_total, 992 + 92);
    // The two-tile clamp from v1 was removed: g_sk is sized to the
    // full preferred grid, so a tail tile may be touched by many
    // more than 2 WGs.  The shader's atomicAdd path handles this
    // correctly.
    assert!(!s.is_pure_dp());
    assert!(!s.is_pure_sk());
    // The DP grid is always a clean rectangle.
    assert_eq!(s.dp_tiles_total % s.n_tiles, 0);
}

#[test]
fn schedule_degenerates_to_pure_sk_for_small_shape() {
    // 512^3 / 128x128/BK=32: m_tiles=4, n_tiles=4, T=16,
    // iters_per_tile=16, total_iters=256.  T < G_pref=92 so all
    // tiles go through SK; g_sk is capped at total_iters_sk and
    // sized to spread work across the full preferred grid.
    let s = StreamKSchedule::for_shape(512, 512, 512, 128, 128, 32, 46);
    assert_eq!(s.dp_tiles_total, 0);
    assert_eq!(s.total_iters_sk, 256);
    // 92 < 256, so the preferred grid is honored.
    assert_eq!(s.g_sk, 92);
    assert!(s.is_pure_sk());
    assert!(!s.is_pure_dp());
}

#[test]
fn schedule_rem_distributes_correctly_on_sk_tail() {
    let s = StreamKSchedule::for_shape(4096, 4096, 4096, 128, 128, 32, 46);
    assert_eq!(s.iters_per_wg_sk * s.g_sk + s.rem_sk, s.total_iters_sk);
    assert!(s.rem_sk < s.g_sk);
}

#[test]
fn schedule_degenerates_to_pure_dp_when_tiles_clean_multiple_of_g() {
    // Construct a shape where T is exactly a multiple of G_pref=92.
    // T = 92 needs m_tiles*n_tiles = 92.  92 = 4*23, so use
    // M=128*4=512, N=128*23=2944, K=128.  iters_per_tile = 4.
    let s = StreamKSchedule::for_shape(512, 2944, 128, 128, 128, 32, 46);
    assert_eq!(s.dp_tiles_total, 92);
    assert_eq!(s.g_sk, 0);
    assert_eq!(s.total_iters_sk, 0);
    assert_eq!(s.grid_total, 92);
    assert!(s.is_pure_dp());
}

#[test]
fn gate_blocks_unaligned_shapes() {
    // Any unaligned dim should disqualify SK.
    assert!(!stream_k_should_fire(127, 128, 32, 46, 0.5));
    assert!(!stream_k_should_fire(128, 127, 32, 46, 0.5));
    assert!(!stream_k_should_fire(128, 128, 31, 46, 0.5));
}

#[test]
fn gate_blocks_small_shapes_with_no_full_wave() {
    // T < preferred_g => can't fill a full wave => skip SK.
    // 384x384x128: m_tiles=3, n_tiles=3, T=9.  G_pref=92.
    assert!(!stream_k_should_fire(384, 384, 128, 46, 0.5));
}

#[test]
fn gate_blocks_clean_multiple_shapes_no_tail() {
    // T % G_pref == 0 => no wave-quant tail => skip SK.
    assert!(!stream_k_should_fire(512, 2944, 128, 46, 0.5));
}

#[test]
fn gate_blocks_when_tail_fraction_too_large() {
    // sq_2048: T=256, G_pref=92.  tail = 72.  tail/G = 0.78 > 0.5.
    // Skip SK because the persistent-grid overhead dominates.
    assert!(!stream_k_should_fire(2048, 2048, 2048, 46, 0.5));
}

#[test]
fn gate_fires_on_severe_wave_quant() {
    // Construct a shape with tail = 1 tile only: T = G+1 = 93.
    // M=128*1, N=128*93=11904 -> not square but valid.  Tail
    // fraction = 1/92 = 0.011, well below the default 0.05.
    assert!(stream_k_should_fire(128, 11904, 128, 46, 0.05));
}

#[test]
fn fallible_schedule_rejects_invalid_or_overflowing_shapes() {
    assert!(StreamKSchedule::try_for_shape(128, 128, 32, 0, 128, 32, 46).is_err());
    assert!(StreamKSchedule::try_for_shape(129, 128, 32, 128, 128, 32, 46).is_err());
    assert!(StreamKSchedule::try_for_shape(u32::MAX, u32::MAX, 1, 1, 1, 1, 46).is_err());
}

#[test]
fn timestamp_delta_masks_queue_counter_width() {
    assert_eq!(timestamp_delta(4, 7, 0), 3);
    assert_eq!(timestamp_delta(1, 2, 1), 1);
    assert_eq!(timestamp_delta(250, 5, 8), 11);
    assert_eq!(timestamp_delta((1u64 << 63) - 2, 3, 63), 5);
    assert_eq!(timestamp_delta(u64::MAX - 2, 3, 64), 6);
}

#[test]
fn timestamp_delta_respects_device_counter_width() {
    assert_eq!(timestamp_delta(250, 5, 8), 11);
    assert_eq!(timestamp_delta(u64::MAX - 2, 3, 64), 6);
}

#[test]
fn median_handles_empty_and_unsorted_samples() {
    assert_eq!(median(&[]), None);
    assert_eq!(median(&[9, 1, 5]), Some(5));
    assert_eq!(median(&[8, 2]), Some(5));
}

#[test]
fn candidate_order_is_balanced_in_measured_pairs() {
    for round in 0..=4 {
        let mut order = (0..19)
            .map(|offset| candidate_at(19, round, offset))
            .collect::<Vec<_>>();
        order.sort_unstable();
        assert_eq!(order, (0..19).collect::<Vec<_>>());
    }
    for rounds in [2, 4] {
        let mut rank_sums = [0; 19];
        for round in 1..=rounds {
            for rank in 0..19 {
                rank_sums[candidate_at(19, round, rank)] += rank;
            }
        }
        assert!(rank_sums.iter().all(|sum| *sum == rank_sums[0]));
    }
}

#[test]
fn alignment_message_quotes_tile_and_shape() {
    let err = ensure_kernel_alignment("v3_128x128_bk8_static", [128, 128, 8], [128, 128, 24])
        .unwrap_err()
        .to_string();
    assert_eq!(
        err,
        "kernel 'v3_128x128_bk8_static' requires M/N/K aligned to (128, 128, 16), got (128, 128, 24)"
    );
}

#[test]
fn stream_k_refusals_are_told_apart() {
    let text = |m, n, k, bm, bn, bk| {
        StreamKSchedule::try_for_shape(m, n, k, bm, bn, bk, 46)
            .unwrap_err()
            .to_string()
    };
    assert_eq!(
        text(128, 128, 32, 0, 128, 32),
        "Stream-K dimensions and tile sizes must be non-zero"
    );
    assert_eq!(
        text(129, 128, 32, 128, 128, 32),
        "Stream-K shape must be aligned to its tile sizes"
    );
    assert_eq!(text(u32::MAX, u32::MAX, 1, 1, 1, 1), "Stream-K tile count overflows u32");
    assert_eq!(text(16, 1, u32::MAX, 1, 1, 1), "Stream-K iteration count overflows u32");
    // One multiprocessor is assumed where none is reported.
    let s = StreamKSchedule::for_shape(384, 128, 32, 128, 128, 32, 0);
    assert_eq!((s.dp_tiles_total, s.g_sk), (2, 1));
}

#[test]
fn stream_k_workgroups_share_the_tail_evenly() {
    for (m, n, k) in [(4096, 4096, 4096), (512, 512, 512), (128, 11904, 128), (640, 896, 96)] {
        let s = StreamKSchedule::for_shape(m, n, k, 128, 128, 32, 46);
        let tiles = (m / 128) * (n / 128);
        assert_eq!(s.total_iters_sk, (tiles - s.dp_tiles_total) * s.iters_per_tile);
        assert_eq!(s.dp_tiles_total % s.n_tiles, 0);
        let mut next = 0;
        for wg in 0..s.g_sk {
            next += s.iters_per_wg_sk + u32::from(wg < s.rem_sk);
        }
        assert_eq!(next, s.total_iters_sk);
    }
}

#[test]
fn split_k2_info_names_the_stage_one_kernel() {
    let info = DispatchInfo::split_k2(128, 256, 16);
    assert_eq!((info.kernel, info.tile), ("split_k2_m128n128", [128, 128, 32]));
    assert_eq!(info.split_k2_splits, Some(16));
    assert_eq!(DispatchInfo::split_k2(64, 256, 4).kernel, "split_k2_m64n64");
}

#[test]
fn scratch_errors_quote_their_numbers() {
    assert_eq!(
        validate_scratch_geometry(1, 64, 64, 64, 65).unwrap_err().to_string(),
        "split-K2: splits=65 exceeds K=64"
    );
    assert_eq!(
        validate_scratch_geometry(1, 65_536, 65_536, 2, 2).unwrap_err().to_string(),
        "split-K2: batch*M*N*splits = 8589934592 exceeds u32 scratch addressing"
    );
    assert_eq!(
        validate_scratch_geometry(u32::MAX, u32::MAX, u32::MAX, 2, 2)
            .unwrap_err()
            .to_string(),
        "split-K2 scratch size overflows"
    );
}

#[test]
fn medians_do_not_overflow() {
    assert_eq!(median(&[u64::MAX, u64::MAX]), Some(u64::MAX));
    assert_eq!(median(&[u64::MAX, u64::MAX - 3]), Some(u64::MAX - 2));
    assert_eq!(median(&[3, 1, 2, 9]), Some(2));
    assert_eq!(median(&[7]), Some(7));
}

#[test]
fn measurement_covers_every_candidate_in_every_round() {
    let order = measurement_order(5, 4);
    assert_eq!(order.len(), 25);
    assert_eq!(&order[..5], &[(0, 0), (0, 1), (0, 2), (0, 3), (0, 4)]);
    assert_eq!(&order[5..10], &[(1, 0), (1, 1), (1, 2), (1, 3), (1, 4)]);
    assert_eq!(&order[10..15], &[(2, 4), (2, 3), (2, 2), (2, 1), (2, 0)]);
    assert_eq!(&order[15..20], &[(3, 3), (3, 4), (3, 0), (3, 1), (3, 2)]);
    assert_eq!(measured_rounds(40_000_000_000), 4);
    assert_eq!(measured_rounds(40_000_000_001), 2);
}

#[test]
fn challenger_has_to_clear_the_margin() {
    let candidates = [11usize, 12, 13];
    let samples = |a: u64, b: u64, c: u64| vec![vec![a], vec![b], vec![c]];
    // Two percent below the heuristic's time is not enough.
    assert_eq!(pick_winner(&candidates, &samples(100, 98, 120), 11).unwrap(), (11, 100));
    assert_eq!(pick_winner(&candidates, &samples(100, 97, 120), 11).unwrap(), (12, 97));
    // Among equals the first one counts.
    assert_eq!(pick_winner(&candidates, &samples(90, 80, 80), 99).unwrap(), (12, 80));
    // The heuristic's pick was not measured.
    let unmeasured = vec![vec![], vec![50], vec![60]];
    assert_eq!(pick_winner(&candidates, &unmeasured, 11).unwrap(), (12, 50));
    let nothing = vec![vec![], vec![], vec![]];
    assert_eq!(
        pick_winner(&candidates, &nothing, 11).unwrap_err().to_string(),
        "no candidate produced a measurement"
    );
    let probes = [4u32, 8];
    assert_eq!(pick_split(&probes, &[vec![60], vec![50]], 100), Some((8, 50)));
    assert_eq!(pick_split(&probes, &[vec![99], vec![98]], 100), None);
    assert_eq!(pick_split(&probes, &[vec![], vec![]], 100), None);
}

#[test]
fn gate_blocks_a_tail_at_the_threshold() {
    // 115 tiles: one wave of 92 and a tail of 23, a quarter of a wave.
    assert_eq!(stream_k_tail(128, 14_720, 128, 46), Some((23, 92)));
    assert!(!stream_k_should_fire(128, 14_720, 128, 46, 0.25));
    assert!(stream_k_should_fire(128, 14_720, 128, 46, 0.26));
}
