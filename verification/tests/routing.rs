//! Gated kernels, measured winners, and the route that each shape takes.

use tensor_ash::context::{DeviceKind, VulkanContext};
use tensor_ash::dtype::{DType, Scalar};
use tensor_ash::executor::plan::{Executor, ExecutorConfig};
use tensor_ash::matmul::api::{Activation, Epilogue, EpilogueBinary, MatmulCall, MatmulOp};
use tensor_ash::matmul::resolution::ResolvedMatmul;
use tensor_ash::pipeline::abi::{EpilogueKey, KernelVariant};
use tensor_ash::pipeline::catalog::{KernelSelection, KERNEL_COUNT};
use tensor_ash::pipeline::create::{
    eager_slot, spec_map_entries, specialization_constants, specialization_data, spirv_words,
};
use tensor_ash::pipeline::registry::{MatmulPipeline, PipelineId, EXTRA_SHADERS};
use tensor_ash::pipeline::tuning::{
    header_line, shader_registry_hash, tune_store_name, TuneEntry, TuneKey, TunedMap,
};
use tensor_ash::tensor::{Buffer, Tensor};

fn device() -> VulkanContext {
    VulkanContext {
        id: 1,
        device_kind: DeviceKind::DiscreteGpu,
        vendor_id: 0x10de,
        device_id: 0x84,
        driver_version: 595,
        buffer_device_address_enabled: true,
        f16_storage_enabled: true,
        coopmat_enabled: true,
        coopmat2_enabled: true,
        memory_model_device_scope_enabled: true,
        atomic_float_add_enabled: true,
        timestamps_supported: true,
        timestamp_valid_bits: 64,
        workgroup_shared_budget: 49_152,
        max_groups_x: 65_535,
        max_groups_y: 65_535,
        max_groups_z: 65_535,
    }
}

fn shared_bytes() -> Vec<u32> {
    (0..KERNEL_COUNT)
        .map(|i| {
            let spec = KernelSelection::at_index(i).kernel_spec();
            if spec.tile_k == 1 {
                2048
            } else {
                4 * (spec.tile_m * (spec.tile_k + 1) + spec.tile_k * spec.tile_n)
            }
        })
        .collect()
}

fn binaries() -> Vec<Vec<u8>> {
    (0..KERNEL_COUNT + EXTRA_SHADERS).map(|i| vec![i as u8; 8]).collect()
}

fn pipeline(ctx: &VulkanContext, selection: KernelSelection, store: Option<&str>) -> MatmulPipeline {
    MatmulPipeline::new_with_kernel_selection(ctx, selection, &binaries(), &shared_bytes(), store)
        .ok()
        .unwrap()
}

fn executor(ctx: &VulkanContext) -> Executor {
    let pipe = pipeline(ctx, KernelSelection::Auto, None);
    Executor::new_with_config(ctx, pipe, ExecutorConfig::default()).ok().unwrap()
}

fn scalar(value: f32) -> Scalar {
    Scalar { bits: value.to_bits() }
}

fn buffer(handle: u64) -> Buffer {
    Buffer { context: 1, handle, address: 0x10_0000 * handle, bytes: 1 << 30 }
}

fn tensor(handle: u64, shape: &[u32]) -> Tensor {
    let bytes = Tensor::allocation_size(shape, DType::F32).ok().unwrap();
    Tensor::uninit_device(shape, Buffer { bytes, ..buffer(handle) }).ok().unwrap()
}

fn half(handle: u64, shape: &[u32]) -> Tensor {
    let bytes = Tensor::allocation_size(shape, DType::F16).ok().unwrap();
    Tensor::uninit_device_f16(&device(), shape, Buffer { bytes, ..buffer(handle) }).ok().unwrap()
}

fn index(selection: KernelSelection) -> usize {
    selection.index().unwrap()
}

fn key(m: u32, n: u32, k: u32) -> TuneKey {
    TuneKey { batch: 1, m, n, k, b_f16: false }
}

#[test]
fn heuristic_promotes_to_pointer_kernels() {
    let pipe = pipeline(&device(), KernelSelection::Auto, None);
    assert!(pipe.routes(false) && pipe.routes(true));
    let pick = |batch, m, n, k, half| {
        KernelSelection::at_index(pipe.heuristic_kernel_index(batch, m, n, k, half))
    };
    assert_eq!(pick(1, 1, 4096, 4096, false), KernelSelection::RowBda);
    assert_eq!(pick(1, 1, 4096, 4096, true), KernelSelection::F16wRowBdaK16);
    assert_eq!(pick(1, 4096, 1, 4096, false), KernelSelection::ColBda);
    assert_eq!(pick(1, 4096, 4096, 1, false), KernelSelection::OuterBda);
    assert_eq!(pick(1, 384, 384, 384, false), KernelSelection::K64BdaV4Tm8Tn4);
    assert_eq!(pick(1, 256, 256, 256, false), KernelSelection::M64N32Bda);
    assert_eq!(pick(1, 2048, 2048, 2048, true), KernelSelection::F16wCoopmat);
    assert_eq!(pick(1, 512, 2048, 2048, true), KernelSelection::F16wCoopmatM64);
    assert_eq!(pick(1, 100, 2048, 2048, true), KernelSelection::F16wK64BdaV4);
    // The deep-K 128x64 tile declares 49,664 bytes, over the budget of 49,152.
    assert_eq!(pick(1, 1024, 1024, 1024, false), KernelSelection::M128N64BdaV4);
    // The column grid would exceed the device's limit.
    let mut narrow = device();
    narrow.max_groups_y = 10;
    let pipe = pipeline(&narrow, KernelSelection::Auto, None);
    let slot = pipe.heuristic_kernel_index(1, 4096, 1, 4096, false);
    assert_ne!(KernelSelection::at_index(slot), KernelSelection::ColBda);
}

#[test]
fn a_registry_without_room_routes_what_it_can() {
    let mut ctx = device();
    // Only the GEMV kernels fit.
    ctx.workgroup_shared_budget = 2048;
    let pipe = pipeline(&ctx, KernelSelection::Auto, None);
    assert!(!pipe.routes(false));
    assert!(pipe.shape_ready(1, 1, 64, 64, false) && pipe.heuristic_ready(1, 64, 1, 64, false));
    assert_eq!(pipe.select_kernel(1, 1, 64, 64).name, "row_bda");
    assert!(!pipe.shape_ready(1, 64, 64, 64, false));
    assert!(!pipe.epilogue_ready(1, 64, 64, 64, false));
    assert!(pipe.epilogue_ready(1, 1, 64, 64, false));
    let config = ExecutorConfig::default();
    let exec = Executor::new_with_config(&ctx, pipe, config).ok().unwrap();
    let (row, w, out) = (tensor(1, &[1, 64]), tensor(2, &[64, 64]), tensor(3, &[1, 64]));
    let (a, c) = (tensor(4, &[64, 64]), tensor(5, &[64, 64]));
    let alpha = scalar(1.0);
    let gemv = MatmulOp::new(MatmulCall { a: &row, b: &w, c: &out, alpha, accumulate: false });
    let gemm = MatmulOp::new(MatmulCall { a: &a, b: &w, c: &c, alpha, accumulate: false });
    assert!(exec.routable(&[gemv]) && !exec.routable(&[gemm]));
    assert!(exec.plan_ops(&[gemv], false).is_ok());
    // An explicit selection needs no heuristic.
    let explicit = pipeline(&ctx, KernelSelection::RowBda, None);
    assert!(explicit.shape_ready(1, 64, 64, 64, false));
    assert_eq!(explicit.select_kernel(1, 64, 64, 64).name, "row_bda");
}

#[test]
fn heuristic_without_addresses_binds_descriptors() {
    let mut ctx = device();
    ctx.buffer_device_address_enabled = false;
    let pipe = pipeline(&ctx, KernelSelection::Auto, None);
    let pick = |m, n, k| KernelSelection::at_index(pipe.heuristic_kernel_index(1, m, n, k, false));
    assert_eq!(pick(1, 4096, 4096), KernelSelection::K64);
    assert_eq!(pick(2048, 2048, 2048), KernelSelection::Large);
    assert!(pipe.tune_candidate_indices(512, 512, 512, false).is_empty());
}

#[test]
fn gated_kernels_are_refused_by_name() {
    let refuse = |ctx: &VulkanContext, selection| {
        MatmulPipeline::new_with_kernel_selection(ctx, selection, &binaries(), &shared_bytes(), None)
            .err()
            .unwrap()
            .to_string()
    };
    let mut ctx = device();
    assert_eq!(
        refuse(&ctx, KernelSelection::M128N64K64),
        "ML_KERNEL selects 'm128n64k64', which declares 49664 B of workgroup memory, over this \
         device's 49152 B budget (maxComputeSharedMemorySize)"
    );
    ctx.coopmat2_enabled = false;
    assert_eq!(
        refuse(&ctx, KernelSelection::F16wCm2),
        "ML_KERNEL selects 'f16w_cm2', which requires NV cooperative matrix 2 support this device lacks"
    );
    ctx.coopmat_enabled = false;
    assert_eq!(
        refuse(&ctx, KernelSelection::F16wCoopmat),
        "ML_KERNEL selects 'f16w_coopmat_aligned', which requires cooperative-matrix support this \
         device lacks"
    );
    ctx.f16_storage_enabled = false;
    assert_eq!(
        refuse(&ctx, KernelSelection::F16wRowBda),
        "ML_KERNEL selects 'f16w_row_bda', which requires f16 storage support (shaderFloat16 + \
         storageBuffer16BitAccess) this device lacks"
    );
    let pipe = pipeline(&ctx, KernelSelection::Auto, None);
    assert!(pipe.routes(false));
    assert!(!pipe.routes(true));
    assert!(!pipe.has(KernelSelection::F16wSmallBdaV4));
}

#[test]
fn demotion_follows_the_budget() {
    let mut ctx = device();
    ctx.workgroup_shared_budget = 32_768;
    let pipe = pipeline(&ctx, KernelSelection::Auto, None);
    assert_eq!(pipe.in_budget_index(KernelSelection::Large), index(KernelSelection::Small));
    assert_eq!(
        pipe.in_budget_index(KernelSelection::M128N64K64BdaV4),
        index(KernelSelection::M128N64BdaV4)
    );
    ctx.workgroup_shared_budget = 17_000;
    let pipe = pipeline(&ctx, KernelSelection::Auto, None);
    assert_eq!(
        pipe.in_budget_index(KernelSelection::M128N64K64BdaV4),
        index(KernelSelection::SmallBdaV4)
    );
    assert_eq!(
        pipe.in_budget_index(KernelSelection::F16wM128N64K64BdaV4),
        index(KernelSelection::F16wSmallBdaV4)
    );
}

#[test]
fn measured_winner_precedes_the_heuristic() {
    let mut pipe = pipeline(&device(), KernelSelection::Auto, None);
    let shape = key(512, 512, 512);
    assert!(!pipe.is_tuned(shape));
    let winner = index(KernelSelection::SmallBdaV4);
    pipe.record_tuned(shape, TuneEntry { kernel: winner, splitk2_splits: Some(8) });
    assert!(pipe.is_tuned(shape));
    assert_eq!(pipe.route(1, 512, 512, 512, false), (winner, Some(Some(8))));
    assert_eq!(pipe.tuned_splitk2(shape), Some(8));
    assert_eq!(pipe.route(1, 512, 512, 513, false).1, None);
    assert_eq!(pipe.select_kernel(1, 512, 512, 512).name, "small_bda_v4");

    let explicit = pipeline(&device(), KernelSelection::K64, None);
    assert!(explicit.is_tuned(shape));
    assert!(!explicit.is_auto());
    assert_eq!(explicit.route(1, 1, 1, 1, false), (index(KernelSelection::K64), None));
}

#[test]
fn the_last_record_of_a_shape_counts() {
    let ctx = device();
    let mut pipe = pipeline(&ctx, KernelSelection::Auto, None);
    let shape = key(512, 512, 512);
    let before = pipe.route(1, 512, 512, 512, false);
    assert_eq!(before, (pipe.heuristic_kernel_index(1, 512, 512, 512, false), None));
    let untouched = pipe.route(1, 256, 256, 256, false);
    for (kernel, splits) in [(KernelSelection::K64Bda, Some(4)), (KernelSelection::SmallBda, None)] {
        let entry = TuneEntry { kernel: index(kernel), splitk2_splits: splits };
        pipe.record_tuned(shape, entry);
        assert_eq!(pipe.route(1, 512, 512, 512, false), (entry.kernel, Some(splits)));
    }
    assert_eq!(pipe.route(1, 256, 256, 256, false), untouched);
    assert!(!pipe.is_tuned(TuneKey { b_f16: true, ..shape }));

    // A winner whose kernel this device does not have is routed all the same;
    // there is just no kernel to fetch.
    let mut weak = ctx;
    weak.f16_storage_enabled = false;
    let mut pipe = pipeline(&weak, KernelSelection::Auto, None);
    let half = TuneKey { b_f16: true, ..shape };
    let gated = TuneEntry { kernel: index(KernelSelection::F16wCm2), splitk2_splits: Some(1) };
    assert!(!pipe.has_route(1, 512, 512, 512, true));
    pipe.record_tuned(half, gated);
    assert!(pipe.has_route(1, 512, 512, 512, true));
    assert!(!pipe.shape_ready(1, 512, 512, 512, true));
    assert_eq!(pipe.route(1, 512, 512, 512, true), (gated.kernel, Some(Some(1))));
    // A split count that no dispatch can carry is not loaded again.
    let hash = shader_registry_hash(&binaries());
    let again = TunedMap::from_text(&pipe.store_text(), &header_line(&weak, hash));
    assert_eq!(again.get(half), Some(TuneEntry { splitk2_splits: None, ..gated }));

    let mut explicit = pipeline(&ctx, KernelSelection::K64, None);
    explicit.record_tuned(shape, TuneEntry { kernel: 0, splitk2_splits: Some(8) });
    assert_eq!(explicit.route(1, 512, 512, 512, false), (index(KernelSelection::K64), None));
}

#[test]
fn another_driver_or_build_starts_afresh() {
    let ctx = device();
    let mut newer = ctx;
    newer.driver_version = 596;
    assert_ne!(header_line(&ctx, 7), header_line(&newer, 7));
    assert_ne!(header_line(&ctx, 7), header_line(&ctx, 0x7000_0000_0000_0000));
    let entry = TuneEntry { kernel: index(KernelSelection::K64Bda), splitk2_splits: None };
    let text = TunedMap::new().with(key(2, 3, 4), entry).to_text(&header_line(&ctx, 7));
    let load = |ctx: &VulkanContext, hash| {
        TunedMap::from_text(&text, &header_line(ctx, hash)).get(key(2, 3, 4))
    };
    assert_eq!(load(&ctx, 7), Some(entry));
    assert_eq!(load(&newer, 7), None);
    assert_eq!(load(&ctx, 8), None);
}

#[test]
fn stored_winners_survive_a_restart() {
    let mut pipe = pipeline(&device(), KernelSelection::Auto, None);
    let half = TuneKey { b_f16: true, ..key(64, 64, 64) };
    let first = TuneEntry { kernel: index(KernelSelection::RowBda), splitk2_splits: None };
    let second = TuneEntry { kernel: index(KernelSelection::K64Bda), splitk2_splits: Some(65_535) };
    let third = TuneEntry { kernel: index(KernelSelection::F16wK64BdaV4), splitk2_splits: None };
    pipe.record_tuned(key(512, 1, 9), second);
    pipe.record_tuned(key(2, 3, 4), first);
    pipe.record_tuned(half, third);
    let text = pipe.store_text();
    let hash = shader_registry_hash(&binaries());
    let expected = format!(
        "tensor-ash-tune-v3 driver=595 shaders={hash:016x}\n1 2 3 4 row_bda\n\
         1 64 64 64 f16w_k64_bda_v4 bf16\n1 512 1 9 k64_bda splitk2=65535\n"
    );
    assert_eq!(text, expected);
    let again = pipeline(&device(), KernelSelection::Auto, Some(&text));
    assert_eq!(again.route(1, 512, 1, 9, false), (second.kernel, Some(Some(65_535))));
    assert_eq!(again.route(1, 64, 64, 64, true), (third.kernel, Some(None)));
    assert!(again.is_tuned(key(2, 3, 4)));
    assert_eq!(again.store_text(), text);

    let mut updated = device();
    updated.driver_version = 596;
    let stale = pipeline(&updated, KernelSelection::Auto, Some(&text));
    assert!(!stale.is_tuned(key(2, 3, 4)));

    // A winner whose kernel is gated off here is dropped.
    let mut weak = device();
    weak.f16_storage_enabled = false;
    let weak = pipeline(&weak, KernelSelection::Auto, Some(&text));
    assert!(weak.is_tuned(key(2, 3, 4)));
    assert!(!weak.is_tuned(half));
}

#[test]
fn malformed_store_lines_are_passed_over() {
    let header = "head";
    let text = "head\r\n1 2 3 4 row_bda\n\n1 2 3\nx 2 3 4 row_bda\n1 2 3 5 no_such_kernel\n\
                \t1  7 8 9 k64_bda  splitk2=1 extra\n1 7 8 9 row_bda splitk2=4 splitk2=x\n\
                1 9 9 9 col_bda bf16 splitk2=12";
    let map = TunedMap::from_text(text, header);
    let entry = |k| map.get(k);
    assert_eq!(entry(key(2, 3, 4)).unwrap().kernel, index(KernelSelection::RowBda));
    assert_eq!(entry(key(2, 3, 5)), None);
    // The later line counts, and its last split count is no number.
    assert_eq!(
        entry(key(7, 8, 9)),
        Some(TuneEntry { kernel: index(KernelSelection::RowBda), splitk2_splits: None })
    );
    assert_eq!(
        entry(TuneKey { b_f16: true, ..key(9, 9, 9) }),
        Some(TuneEntry { kernel: index(KernelSelection::ColBda), splitk2_splits: Some(12) })
    );
    assert_eq!(TunedMap::from_text("other\n1 2 3 4 row_bda\n", header).get(key(2, 3, 4)), None);
    assert_eq!(TunedMap::from_text("", header).get(key(2, 3, 4)), None);
    assert_eq!(TunedMap::new().to_text("h"), "h\n");
}

#[test]
fn store_is_named_after_the_device() {
    let mut ctx = device();
    assert_eq!(tune_store_name(&ctx), "tuned_kernels_v10de_0084.txt");
    ctx.vendor_id = 0x1_2345;
    assert_eq!(tune_store_name(&ctx), "tuned_kernels_v12345_0084.txt");
    assert_eq!(
        header_line(&ctx, 0xab),
        "tensor-ash-tune-v3 driver=595 shaders=00000000000000ab"
    );
    assert_eq!(shader_registry_hash(&[]), 0xcbf29ce484222325);
    // FNV-1a of "a" and of "foobar".
    assert_eq!(shader_registry_hash(&[b"a".to_vec()]), 0xaf63dc4c8601ec8c);
    assert_eq!(
        shader_registry_hash(&[b"foo".to_vec(), b"bar".to_vec()]),
        0x85944171f73967e8
    );
}

#[test]
fn tuning_tries_only_kernels_that_handle_the_shape() {
    let pipe = pipeline(&device(), KernelSelection::Auto, None);
    let names = |m, n, k, half| -> Vec<&'static str> {
        pipe.tune_candidate_indices(m, n, k, half)
            .into_iter()
            .map(|i| KernelSelection::at_index(i).kernel_spec().name)
            .collect()
    };
    let square = names(512, 512, 512, false);
    assert!(square.contains(&"large_bda_v4") && square.contains(&"k64_bda"));
    assert!(!square.contains(&"large_bda_v4_aligned"));
    assert!(!square.contains(&"row_bda") && !square.contains(&"col_bda"));
    assert!(!square.contains(&"large_128") && !square.contains(&"m128n64k64_bda"));
    assert!(names(1, 512, 512, false).contains(&"row_bda"));
    assert!(names(512, 1, 512, false).contains(&"col_bda"));
    assert!(names(512, 512, 1, false).contains(&"outer_bda"));
    let halves = names(512, 512, 512, true);
    assert!(halves.contains(&"f16w_coopmat_aligned") && halves.contains(&"f16w_cm2"));
    assert!(!halves.contains(&"f16w_coopmat_m64") && !halves.contains(&"f16w_a16_coopmat_aligned"));
    assert!(!names(500, 512, 512, true).contains(&"f16w_coopmat_aligned"));
    assert!(!names(1, 512, 512, true).contains(&"f16w_row_bda_k16_packed"));
}

#[test]
fn epilogues_demote_to_kernels_that_fuse() {
    let exec = executor(&device());
    let a = tensor(1, &[2048, 2048]);
    let b = half(2, &[2048, 2048]);
    let c = tensor(3, &[2048, 2048]);
    let call = MatmulCall { a: &a, b: &b, c: &c, alpha: scalar(1.0), accumulate: false };
    let plain = MatmulOp::new(call);
    let fused = MatmulOp::with_epilogue(
        call,
        Epilogue {
            bias: None,
            activation: Activation::Silu,
            binary: EpilogueBinary::default(),
        },
    );
    let dims = ResolvedMatmul::from_op(&plain).unwrap();
    let plan = exec.plan_matmul(&dims, false).unwrap();
    assert_eq!(plan.kernel, index(KernelSelection::F16wCoopmat));
    assert_eq!(exec.demote_for_op(&plain, &dims, plan), plan);
    let demoted = exec.demote_for_op(&fused, &dims, plan);
    assert_eq!(demoted.kernel, index(KernelSelection::F16wCm2));

    let mut older = device();
    older.coopmat2_enabled = false;
    let exec = executor(&older);
    let demoted = exec.demote_for_op(&fused, &dims, plan);
    assert_eq!(demoted.kernel, index(KernelSelection::F16wLargeBdaV4));
}

#[test]
fn packed_and_f16_activations_have_fixed_routes() {
    let exec = executor(&device());
    let a = half(1, &[2048, 2048]);
    let row = tensor(4, &[1, 2048]);
    let b = half(2, &[2048, 2048]);
    let c = half(3, &[2048, 2048]);
    let out = tensor(5, &[1, 2048]);
    let alpha = scalar(1.0);
    let op = MatmulOp::new(MatmulCall { a: &a, b: &b, c: &c, alpha, accumulate: false });
    let dims = ResolvedMatmul::from_op(&op).unwrap();
    let plan = exec.plan_matmul(&dims, true).unwrap();
    assert_eq!(plan.kernel, index(KernelSelection::F16wA16Coopmat));
    let mut packed = MatmulOp::new(MatmulCall { a: &row, b: &b, c: &out, alpha, accumulate: false });
    packed.packed_b = true;
    let dims = ResolvedMatmul::from_op(&packed).unwrap();
    let plan = exec.plan_matmul(&dims, true).unwrap();
    assert_eq!(plan.kernel, index(KernelSelection::F16wRowBdaK16Packed));
    assert_eq!(exec.demote_for_op(&packed, &dims, plan), plan);

    let mut older = device();
    older.coopmat_enabled = false;
    let exec = executor(&older);
    let dims = ResolvedMatmul::from_op(&op).unwrap();
    assert_eq!(
        exec.plan_matmul(&dims, true).unwrap_err().to_string(),
        "matmul with f16 A storage requires cooperative-matrix and f16-storage support, which this \
         device lacks"
    );
}

#[test]
fn split_routes_are_for_plain_discrete_shapes() {
    let exec = executor(&device());
    assert_eq!(exec.plan_shape(1, 64, 64, 8192, false, true).splitk2, Some(64));
    assert_eq!(exec.plan_shape(1, 64, 64, 8192, false, false).splitk2, None);
    assert_eq!(exec.plan_shape(1, 64, 64, 8192, true, true).splitk2, None);
    let info = exec.dispatch_info(1, 64, 64, 8192);
    assert_eq!((info.kernel, info.split_k2_splits), ("split_k2_m64n64", Some(64)));
    let info = exec.dispatch_info(1, 2048, 2048, 2048);
    assert_eq!((info.kernel, info.tile), ("large_bda_v4", [128, 128, 32]));
    assert_eq!(exec.dispatch_info_for(1, 1, 8192, 2048, true).kernel, "f16w_row_bda_k16_v2");
    let mut small = device();
    small.device_kind = DeviceKind::IntegratedGpu;
    let exec = executor(&small);
    assert_eq!(exec.plan_shape(1, 64, 64, 8192, false, true).splitk2, None);
}

#[test]
fn a_measured_veto_keeps_a_shape_unsplit() {
    let ctx = device();
    let mut exec = executor(&ctx);
    let entry = TuneEntry { kernel: index(KernelSelection::SmallBdaV4), splitk2_splits: None };
    exec.record_tuned(key(64, 64, 8192), entry);
    let plan = exec.plan_shape(1, 64, 64, 8192, false, true);
    assert_eq!((plan.kernel, plan.splitk2), (entry.kernel, None));
}

#[test]
fn executor_keeps_at_least_one_slot_and_call() {
    let ctx = device();
    let pipe = pipeline(&ctx, KernelSelection::Auto, None);
    let config = ExecutorConfig { n_slots: 0, max_calls_per_submit: 0, tune: true };
    let exec = Executor::new_with_config(&ctx, pipe, config).ok().unwrap();
    assert_eq!((exec.n_slots(), exec.max_calls_per_submit()), (1, 1));
    assert!(exec.tune_enabled());
    assert_eq!(
        ExecutorConfig::default(),
        ExecutorConfig { n_slots: 2, max_calls_per_submit: 64, tune: false }
    );
    let mut other = ctx;
    other.id = 2;
    let pipe = pipeline(&ctx, KernelSelection::Auto, None);
    assert_eq!(
        Executor::new_with_config(&other, pipe, config).err().unwrap().to_string(),
        "Executor::new: pipeline belongs to a different VulkanContext"
    );
    assert!(Executor::tune_requested(Some("1")) && Executor::tune_requested(Some("On")));
    assert!(Executor::tune_requested(Some("TRUE")) && !Executor::tune_requested(Some("yes")));
    assert!(!Executor::tune_requested(None));
}

#[test]
fn shader_words_are_little_endian() {
    assert_eq!(spirv_words(&[0x03, 0x02, 0x23, 0x07, 0, 0, 1, 0]), vec![0x0723_0203, 0x1_0000]);
    assert!(spirv_words(&[]).is_empty());
    let entries = spec_map_entries(3);
    assert_eq!(entries.len(), 3);
    assert_eq!((entries[2].constant_id, entries[2].offset, entries[2].size), (2, 8, 4));
}

#[test]
fn specialization_covers_what_a_kernel_fuses() {
    let variant = KernelVariant {
        accumulate: true,
        alpha_is_one: false,
        interior_only: true,
        k_multiple: false,
    };
    let key = EpilogueKey { bias: true, activation: 3, binary: 2, store_mode: 1, store_f16: true };
    let constants = |s: KernelSelection| specialization_constants(&s.kernel_spec(), variant, key);
    assert_eq!(constants(KernelSelection::Large), vec![1, 0, 1, 0]);
    assert_eq!(constants(KernelSelection::LargeBdaV4), vec![1, 0, 1, 0, 1, 3, 2]);
    assert_eq!(constants(KernelSelection::F16wRowBda), vec![1, 0, 1, 0, 1, 3, 2, 1, 1]);
    assert_eq!(eager_slot(variant), 1);
    let data = specialization_data(&KernelSelection::LargeBdaV4.kernel_spec(), variant, key);
    let words: Vec<u32> = data
        .chunks(4)
        .map(|c| u32::from_ne_bytes([c[0], c[1], c[2], c[3]]))
        .collect();
    assert_eq!(words, vec![1, 0, 1, 0, 1, 3, 2]);
}

#[test]
fn only_plain_bounds_checked_pipelines_are_eager() {
    let fallback = KernelVariant::from_index(3);
    let none = EpilogueKey::default();
    assert!(PipelineId { kernel: 0, variant: fallback, epilogue: none }.is_eager());
    let exact = KernelVariant::from_index(7);
    assert!(!PipelineId { kernel: 0, variant: exact, epilogue: none }.is_eager());
    let fused = EpilogueKey { activation: 1, ..none };
    assert!(!PipelineId { kernel: 0, variant: fallback, epilogue: fused }.is_eager());
}
