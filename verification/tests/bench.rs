//! The benchmark's settings and text, and the deterministic numbers.

use tensor_ash::bench::{
    csv_escape, env_bool, env_u32, env_usize, host_len, sweep_cases, OutputMode, SweepMode,
};
use tensor_ash::dtype::Scalar;
use tensor_ash::testing::LcgRng;

/// The deterministic fill, read as floats.
fn fill_det(out: &mut [f32], seed: u64) {
    let mut numbers = vec![Scalar { bits: 0 }; out.len()];
    tensor_ash::testing::fill_det(&mut numbers, seed);
    for (value, number) in out.iter_mut().zip(numbers) {
        *value = f32::from_bits(number.bits);
    }
}

#[test]
fn sweep_modes_choose_expected_case_sets() {
    assert_eq!(sweep_cases(SweepMode::Smoke).len(), 2);
    assert_eq!(sweep_cases(SweepMode::Standard).len(), 7);
    assert_eq!(sweep_cases(SweepMode::Full).len(), 11);
}

#[test]
fn csv_escape_only_quotes_when_needed() {
    assert_eq!(csv_escape("RTX 3070"), "RTX 3070");
    assert_eq!(csv_escape("a,b"), "\"a,b\"");
    assert_eq!(csv_escape("a\"b"), "\"a\"\"b\"");
}

#[test]
fn host_len_rejects_bad_shapes() {
    assert!(host_len(&[]).is_err());
    assert!(host_len(&[1, 0, 4]).is_err());
}

#[test]
fn fill_det_is_deterministic() {
    let mut a = [0.0f32; 8];
    let mut b = [0.0f32; 8];
    fill_det(&mut a, 42);
    fill_det(&mut b, 42);
    assert_eq!(a, b);
}

#[test]
fn fill_det_stays_in_range() {
    let mut buf = [0.0f32; 1024];
    fill_det(&mut buf, 7);
    for v in buf {
        assert!((-1.0..1.0).contains(&v), "value {v} out of [-1, 1)");
    }
}

#[test]
fn fill_det_varies_with_seed() {
    let mut a = [0.0f32; 16];
    let mut b = [0.0f32; 16];
    fill_det(&mut a, 1);
    fill_det(&mut b, 2);
    assert_ne!(a, b);
}

#[test]
fn lcg_range_respects_bounds() {
    let mut rng = LcgRng::new(0xCAFE);
    for _ in 0..1000 {
        let v = rng.range_u32(7, 13);
        assert!((7..=13).contains(&v));
    }
}

#[test]
fn lcg_range_collapses_when_lo_eq_hi() {
    let mut rng = LcgRng::new(1);
    for _ in 0..16 {
        assert_eq!(rng.range_u32(42, 42), 42);
    }
}

#[test]
fn settings_fall_back_to_their_defaults() {
    assert_eq!(OutputMode::from_env(None), OutputMode::Table);
    assert_eq!(OutputMode::from_env(Some("CSV")), OutputMode::Csv);
    assert_eq!(OutputMode::from_env(Some("json")), OutputMode::Table);
    assert_eq!(SweepMode::from_env(Some("Full"), SweepMode::Smoke), SweepMode::Full);
    assert_eq!(SweepMode::from_env(Some("standard"), SweepMode::Smoke), SweepMode::Standard);
    assert_eq!(SweepMode::from_env(Some("huge"), SweepMode::Smoke), SweepMode::Smoke);
    assert_eq!(SweepMode::from_env(None, SweepMode::Standard), SweepMode::Standard);
    assert_eq!(env_u32(Some("4096"), 7), 4096);
    assert_eq!(env_u32(Some("+12"), 7), 12);
    assert_eq!(env_u32(Some("4294967296"), 7), 7);
    assert_eq!(env_u32(Some("-1"), 7), 7);
    assert_eq!(env_u32(Some("+"), 7), 7);
    assert_eq!(env_u32(Some(""), 7), 7);
    assert_eq!(env_u32(None, 7), 7);
    assert_eq!(env_usize(Some("18446744073709551615"), 7), usize::MAX);
    assert_eq!(env_usize(Some("18446744073709551616"), 7), 7);
    assert!(env_bool(Some("1")) && env_bool(Some("TRUE")));
    assert!(!env_bool(Some("yes")) && !env_bool(None));
}

#[test]
fn sweep_cases_hold_their_shapes() {
    let standard = sweep_cases(SweepMode::Standard);
    assert_eq!(standard[3].label, "batched 8x1024^2");
    assert_eq!((standard[3].b, standard[3].m, standard[3].n, standard[3].k), (8, 1024, 1024, 1024));
    let full = sweep_cases(SweepMode::Full);
    assert_eq!(full[10].label, "odd   1023x1025x1027");
    assert_eq!((full[9].m, full[9].k), (1024, 8192));
}

#[test]
fn escaped_fields_hold_their_quotes() {
    assert_eq!(csv_escape("a\nb"), "\"a\nb\"");
    assert_eq!(csv_escape("\""), "\"\"\"\"");
    assert_eq!(csv_escape(""), "");
    assert_eq!(csv_escape("x,\"y\",z"), "\"x,\"\"y\"\",z\"");
}

#[test]
fn host_length_is_the_element_count() {
    assert_eq!(host_len(&[2, 3, 4]).unwrap(), 24);
    assert_eq!(
        host_len(&[1, 0, 4]).unwrap_err().to_string(),
        "tensor dimension 1 must be non-zero"
    );
}

#[test]
fn generator_follows_its_recurrence() {
    let mut rng = LcgRng::new(1);
    let seed = 0x9E3779B97F4A7C15u64 | 1;
    let first = seed.wrapping_mul(6364136223846793005).wrapping_add(1442695040888963407);
    assert_eq!(rng.next_u64(), first);
    let second = first.wrapping_mul(6364136223846793005).wrapping_add(1442695040888963407);
    assert_eq!(rng.next_u64(), second);
    let mut pair = [0.0f32; 2];
    fill_det(&mut pair, 1);
    for (value, number) in pair.iter().zip([first, second]) {
        assert_eq!(*value, ((number >> 40) as u32 as f32) / ((1u32 << 24) as f32) * 2.0 - 1.0);
    }
    assert_eq!(LcgRng::new(0).next_u64(), 7806831264735756412);
    let mut rng = LcgRng::new(1);
    assert_eq!(rng.range_u32(0, u32::MAX), (first % (1u64 << 32)) as u32);
}

#[test]
fn fill_equals_its_float_formula_bit_for_bit() {
    for seed in [0u64, 1, 42, 0xCAFE, u64::MAX] {
        let mut filled = vec![0.0f32; 4096];
        fill_det(&mut filled, seed);
        let mut rng = LcgRng::new(seed);
        for value in filled {
            let upper = (rng.next_u64() >> 40) as u32;
            let expected = (upper as f32) / ((1u32 << 24) as f32) * 2.0 - 1.0;
            assert_eq!(value.to_bits(), expected.to_bits());
        }
    }
    let mut first = [0.0f32; 1];
    fill_det(&mut first, 0);
    assert_eq!(first[0], ((7806831264735756412u64 >> 40) as f32) / 8388608.0 - 1.0);
}
