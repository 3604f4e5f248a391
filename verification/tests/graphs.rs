//! Submissions: batches, dependent graphs, splits, Stream-K, prepared replays
//! and mixed graphs.

use tensor_ash::context::{DeviceKind, VulkanContext};
use tensor_ash::dtype::{DType, Scalar};
use tensor_ash::error::OpName;
use tensor_ash::executor::cells::{HostU32Buffer, PosBuffer};
use tensor_ash::executor::dispatch::{no_splits, plain_ops};
use tensor_ash::executor::elementwise::common::{AttnDecodeDesc, BinaryOp, CopyDesc, SoftmaxMask};
use tensor_ash::executor::graph::GraphStep;
use tensor_ash::executor::graph_ops::{ExecOp, ExecStep, Planned};
use tensor_ash::executor::hazard::{access_of, Access, HazardCursor};
use tensor_ash::executor::plan::{Executor, ExecutorConfig, OpPlan};
use tensor_ash::executor::prepared::PreparedCommands;
use tensor_ash::executor::reduction::SplitRequest;
use tensor_ash::executor::splitk2::{record_split_k2_commands, SplitK2Dispatch};
use tensor_ash::executor::transfer::{needs_new_buffer, slot_descriptors};
use tensor_ash::executor::tuning::{
    collect_samples, tune_operand_shape, tuned_entry, warmup_candidate,
};
use tensor_ash::matmul::api::{Activation, Epilogue, EpilogueBinary, MatmulCall, MatmulOp};
use tensor_ash::matmul::resolution::ResolvedMatmul;
use tensor_ash::persistent::{variant_constants, PersistentMatmul};
use tensor_ash::pipeline::catalog::{KernelSelection, KERNEL_COUNT};
use tensor_ash::pipeline::registry::{MatmulPipeline, EXTRA_SHADERS};
use tensor_ash::pipeline::tuning::{TuneEntry, TuneKey};
use tensor_ash::tensor::{Buffer, Tensor};

fn device() -> VulkanContext {
    VulkanContext {
        id: 1,
        device_kind: DeviceKind::DiscreteGpu,
        vendor_id: 0x10de,
        device_id: 0x84,
        driver_version: 595,
        buffer_device_address_enabled: true,
        f16_storage_enabled: true,
        coopmat_enabled: true,
        coopmat2_enabled: true,
        memory_model_device_scope_enabled: true,
        atomic_float_add_enabled: true,
        timestamps_supported: true,
        timestamp_valid_bits: 64,
        workgroup_shared_budget: 49_152,
        max_groups_x: 65_535,
        max_groups_y: 65_535,
        max_groups_z: 65_535,
    }
}

fn shared_bytes() -> Vec<u32> {
    (0..KERNEL_COUNT)
        .map(|i| {
            let spec = KernelSelection::at_index(i).kernel_spec();
            if spec.tile_k == 1 {
                2048
            } else {
                4 * (spec.tile_m * (spec.tile_k + 1) + spec.tile_k * spec.tile_n)
            }
        })
        .collect()
}

fn binaries() -> Vec<Vec<u8>> {
    (0..KERNEL_COUNT + EXTRA_SHADERS).map(|i| vec![i as u8; 8]).collect()
}

fn pipeline(ctx: &VulkanContext, selection: KernelSelection, store: Option<&str>) -> MatmulPipeline {
    MatmulPipeline::new_with_kernel_selection(ctx, selection, &binaries(), &shared_bytes(), store)
        .ok()
        .unwrap()
}

fn executor(ctx: &VulkanContext) -> Executor {
    let pipe = pipeline(ctx, KernelSelection::Auto, None);
    Executor::new_with_config(ctx, pipe, ExecutorConfig::default()).ok().unwrap()
}

fn scalar(value: f32) -> Scalar {
    Scalar { bits: value.to_bits() }
}

fn buffer(handle: u64) -> Buffer {
    Buffer { context: 1, handle, address: 0x10_0000 * handle, bytes: 1 << 30 }
}

fn tensor(handle: u64, shape: &[u32]) -> Tensor {
    let bytes = Tensor::allocation_size(shape, DType::F32).ok().unwrap();
    Tensor::uninit_device(shape, Buffer { bytes, ..buffer(handle) }).ok().unwrap()
}

fn half(handle: u64, shape: &[u32]) -> Tensor {
    let bytes = Tensor::allocation_size(shape, DType::F16).ok().unwrap();
    Tensor::uninit_device_f16(&device(), shape, Buffer { bytes, ..buffer(handle) }).ok().unwrap()
}

fn planned<T>(r: Result<T, tensor_ash::error::Error>) -> T {
    match r {
        Ok(value) => value,
        Err(e) => panic!("refused: {}", e.to_string()),
    }
}

fn refusal<T>(r: Result<T, tensor_ash::error::Error>) -> String {
    match r {
        Ok(_) => panic!("planned"),
        Err(e) => e.to_string(),
    }
}

fn call<'a>(a: &'a Tensor, b: &'a Tensor, c: &'a Tensor) -> MatmulCall<'a> {
    MatmulCall { a, b, c, alpha: scalar(1.0), accumulate: false }
}

fn index(selection: KernelSelection) -> usize {
    selection.index().unwrap()
}

#[test]
fn hazards_are_reads_and_writes_of_one_buffer() {
    let pending = Access::new().read_raw(1).write_raw(2);
    assert!(Access::new().read_raw(2).hazard_with(&pending));
    assert!(Access::new().write_raw(2).hazard_with(&pending));
    assert!(Access::new().write_raw(1).hazard_with(&pending));
    assert!(!Access::new().read_raw(1).write_raw(3).hazard_with(&pending));

    let mut cursor = HazardCursor::new();
    let step = |reads: &[u64], write: u64| {
        reads.iter().fold(Access::new().write_raw(write), |a, &b| a.read_raw(b))
    };
    assert!(!cursor.barrier_before(&step(&[1], 10)));
    assert!(!cursor.barrier_before(&step(&[1], 11)));
    // Reads what the first wrote.
    assert!(cursor.barrier_before(&step(&[10], 12)));
    // The barrier covered everything before it.
    assert!(!cursor.barrier_before(&step(&[11], 13)));
    // Overwrites what the previous one read.
    assert!(cursor.barrier_before(&step(&[5], 11)));
    // A step that flushes leaves nothing pending behind it but its own write.
    assert!(cursor.barrier_before(&step(&[11], 14).flushing()));
    assert!(!cursor.barrier_before(&step(&[11], 15)));
    assert!(cursor.barrier_before(&step(&[14], 16)));
}

#[test]
fn accumulation_reads_its_output() {
    let (a, b, c) = (tensor(1, &[8, 8]), tensor(2, &[8, 8]), tensor(3, &[8, 8]));
    let mut op = MatmulOp::new(call(&a, &b, &c));
    let reader = Access::new().write_raw(3);
    assert!(access_of(&op).hazard_with(&Access::new().read_raw(3)));
    assert!(!Access::new().read_raw(1).hazard_with(&access_of(&op)));
    op.call.accumulate = true;
    assert!(access_of(&op).hazard_with(&reader));
    let bias = tensor(4, &[8]);
    let d = tensor(5, &[8, 8]);
    op.epilogue = Epilogue {
        bias: Some(&bias),
        activation: Activation::Gelu,
        binary: EpilogueBinary::Mul { d: &d },
    };
    op.call.accumulate = false;
    assert!(access_of(&op).hazard_with(&Access::new().write_raw(4)));
    assert!(access_of(&op).hazard_with(&Access::new().write_raw(5)));
}

#[test]
fn batches_are_checked_in_order() {
    let exec = executor(&device());
    let (a, b, c) = (tensor(1, &[64, 64]), tensor(2, &[64, 64]), tensor(3, &[64, 64]));
    let nothing = planned(exec.plan_ops(&[], false));
    assert_eq!((nothing.plans.len(), nothing.total_flops), (0, 0));
    let alias = MatmulOp::new(call(&a, &b, &a));
    assert_eq!(
        refusal(exec.plan_ops(&[alias], false)),
        "C must not alias A or B; in-place matmul is not supported"
    );
    let fine = MatmulOp::new(call(&a, &b, &c));
    assert_eq!(
        refusal(exec.plan_ops(&vec![fine; 65], true)),
        "run_ops: 65 ops > max_calls_per_submit 64"
    );
    let plan = planned(exec.plan_ops(&[fine, fine], false));
    assert_eq!(plan.total_flops, 2 * 2 * 64 * 64 * 64);
    assert_eq!((plan.scratch_bytes, plan.splits.len()), (0, 2));
    let foreign = Tensor::uninit_device(&[64, 64], Buffer { context: 2, bytes: 16_384, ..buffer(9) }).ok().unwrap();
    let stranger = MatmulOp::new(call(&a, &foreign, &c));
    assert_eq!(
        refusal(exec.plan_ops(&[fine, stranger], false)),
        "B tensor belongs to a different VulkanContext"
    );
}

#[test]
fn recorded_matmul_carries_addresses_and_grid() {
    let exec = executor(&device());
    let (a, b, c) = (tensor(1, &[2, 100, 64]), tensor(2, &[64, 200]), tensor(3, &[2, 100, 200]));
    let mut op = MatmulOp::new(call(&a, &b, &c));
    op.call.alpha = scalar(0.5);
    op.call.accumulate = true;
    let dims = planned(ResolvedMatmul::from_op(&op));
    let slot = index(KernelSelection::SmallBdaV4);
    let mut bound = None;
    let first = planned(exec.record_one_matmul(&op, &dims, slot, &mut bound));
    assert!(first.bind);
    let d = first.dispatch;
    assert_eq!((d.gx, d.gy, d.gz), (4, 2, 2));
    assert_eq!((d.push.m, d.push.n, d.push.k), (100, 200, 64));
    assert_eq!(
        (d.push.batch_stride_a, d.push.batch_stride_b, d.push.batch_stride_c),
        (6400, 0, 20_000)
    );
    assert_eq!(d.push.flags, 1);
    assert_eq!((d.push.a_ptr, d.push.b_ptr, d.push.c_ptr), (0x10_0000, 0x20_0000, 0x30_0000));
    assert!(!d.uses_descriptors);
    let v = d.pipeline.variant;
    assert_eq!(
        (v.accumulate, v.alpha_is_one, v.interior_only, v.k_multiple),
        (true, false, false, true)
    );
    let bytes = d.push.bytes();
    assert_eq!(bytes.len(), 128);
    assert_eq!(bytes[0..4], 100u32.to_ne_bytes());
    assert_eq!(bytes[28..32], 0.5f32.to_ne_bytes());
    assert_eq!(bytes[32..40], 0x10_0000u64.to_ne_bytes());
    // The same pipeline is not bound again.
    assert!(!planned(exec.record_one_matmul(&op, &dims, slot, &mut bound)).bind);
    let other = index(KernelSelection::LargeBdaV4);
    assert!(planned(exec.record_one_matmul(&op, &dims, other, &mut bound)).bind);
    let strict = index(KernelSelection::LargeBdaV4Aligned);
    let before = bound;
    assert!(refusal(exec.record_one_matmul(&op, &dims, strict, &mut bound)).contains("aligned"));
    assert_eq!(bound, before);
}

#[test]
fn descriptors_are_written_only_where_bound() {
    let mut older = device();
    older.buffer_device_address_enabled = false;
    let exec = executor(&older);
    let (a, b, c) = (tensor(1, &[64, 64]), tensor(2, &[64, 64]), tensor(3, &[64, 64]));
    let ops = [MatmulOp::new(call(&a, &b, &c)); 2];
    let plan = |slot| OpPlan { kernel: slot, splitk2: None };
    let plans = [plan(index(KernelSelection::RowBda)), plan(index(KernelSelection::Small))];
    let writes = exec.update_matmul_descriptor_sets(&ops, &plans);
    let flat: Vec<_> = writes.iter().map(|w| (w.set, w.binding, w.buffer)).collect();
    assert_eq!(flat, vec![(1, 0, 1), (1, 1, 2), (1, 2, 3)]);
    let dims = planned(ResolvedMatmul::from_op(&ops[0]));
    let mut bound = None;
    let small = index(KernelSelection::Small);
    let d = planned(exec.record_one_matmul(&ops[0], &dims, small, &mut bound)).dispatch;
    assert!(d.uses_descriptors);
    assert_eq!((d.push.a_ptr, d.push.c_ptr), (0, 0));
}

#[test]
fn dependent_steps_wait_and_independent_ones_do_not() {
    let exec = executor(&device());
    let x = tensor(1, &[64, 64]);
    let w = tensor(2, &[64, 64]);
    let (p, q, r) = (tensor(3, &[64, 64]), tensor(4, &[64, 64]), tensor(5, &[64, 64]));
    let ops = plain_ops(&[call(&x, &w, &p), call(&x, &w, &q), call(&p, &q, &r), call(&x, &p, &q)]);
    let plan = planned(exec.plan_ops(&ops, true));
    let commands = planned(exec.record_matmul_graph_commands(
        &ops,
        &plan.resolved,
        &plan.plans,
        &no_splits(4),
        0,
    ));
    let barriers: Vec<bool> = commands.iter().map(|c| c.barrier).collect();
    assert_eq!(barriers, vec![false, false, true, true]);
    let binds: Vec<bool> = commands
        .iter()
        .map(|c| match c.step {
            GraphStep::Matmul(m) => m.bind,
            GraphStep::SplitK2(_) => true,
        })
        .collect();
    assert_eq!(binds, vec![true, false, false, false]);
}

#[test]
fn graph_splits_share_one_scratch() {
    let exec = executor(&device());
    let x = tensor(1, &[64, 8192]);
    let w = tensor(2, &[8192, 64]);
    let (p, q) = (tensor(3, &[64, 64]), tensor(4, &[64, 64]));
    let ops = plain_ops(&[call(&x, &w, &p), call(&x, &w, &q)]);
    let plan = planned(exec.plan_ops(&ops, true));
    let (first, second) = (plan.splits[0].unwrap(), plan.splits[1].unwrap());
    assert_eq!(first.0.splits, 64);
    let bytes = 64 * 64 * 64 * 4;
    assert_eq!((first.1, second.1), (0, bytes));
    assert_eq!((first.0.scratch_bytes, plan.scratch_bytes), (bytes, 2 * bytes));
    let commands = planned(exec.record_matmul_graph_commands(
        &ops,
        &plan.resolved,
        &plan.plans,
        &plan.splits,
        0x8000_0000,
    ));
    assert_eq!(commands.len(), 2);
    match commands[1].step {
        GraphStep::SplitK2(s) => {
            assert_eq!((s.stage1.flags, s.stage1.c_ptr), (64 << 16, 0x8000_0000 + bytes));
            assert_eq!((s.reduce.scratch_ptr, s.reduce.c_ptr), (0x8000_0000 + bytes, 0x40_0000));
            assert_eq!((s.reduce.total, s.reduce.mn, s.reduce.num_splits), (4096, 4096, 64));
        }
        GraphStep::Matmul(_) => panic!("not split"),
    }
    // Without barriers only a call on its own splits.
    let batch = planned(exec.plan_ops(&ops, false));
    assert!(batch.plans.iter().all(|p| p.splitk2.is_none()));
    let single = planned(exec.plan_ops(&ops[..1], false));
    assert_eq!(single.plans[0].splitk2, Some(64));
}

#[test]
fn explicit_splits_are_planned_or_refused() {
    let exec = executor(&device());
    let (a, b, c) = (tensor(1, &[256, 4096]), tensor(2, &[4096, 256]), tensor(3, &[256, 256]));
    let one = call(&a, &b, &c);
    match planned(exec.plan_matmuls_split_k2(&one, 8)) {
        SplitRequest::Split { dims, plan } => {
            assert_eq!((plan.gx, plan.gy, plan.gz, plan.use_m128), (2, 2, 8, true));
            assert_eq!((plan.mn, plan.total, plan.reduce_groups), (65_536, 65_536, 64));
            assert_eq!(plan.scratch_bytes, 65_536 * 8 * 4);
            let s = record_split_k2_commands(scalar(1.0), &dims, &plan, 1, 2, 3, 4);
            assert_eq!((s.stage1.flags, s.stage1.c_ptr, s.reduce.c_ptr), (8 << 16, 4, 3));
            assert_eq!(s.reduce.bytes().len(), 32);
            assert_eq!(s.reduce.bytes()[8..12], 8u32.to_ne_bytes());
        }
        SplitRequest::Regular => panic!("not split"),
    }
    assert_eq!(planned(exec.plan_matmuls_split_k2(&one, 1)), SplitRequest::Regular);
    let sum = MatmulCall { accumulate: true, ..one };
    assert!(refusal(exec.plan_matmuls_split_k2(&sum, 8)).contains("accumulate"));
    assert!(refusal(exec.plan_matmuls_split_k2(&one, 4097)).contains("4097"));
    assert!(refusal(exec.plan_matmuls_split_k2(&one, 65_536)).contains("65536"));
    let mut low = device();
    low.max_groups_z = 7;
    assert!(refusal(executor(&low).plan_matmuls_split_k2(&one, 8)).contains("(2, 2, 8)"));
    let dims = planned(ResolvedMatmul::from_call(&one));
    assert!(SplitK2Dispatch::plan(&device(), &dims, 1).is_err());
}

#[test]
fn stream_k_covers_the_tail() {
    let exec = executor(&device());
    let (a, b, c) = (tensor(1, &[1024, 512]), tensor(2, &[512, 896]), tensor(3, &[1024, 896]));
    let one = call(&a, &b, &c);
    let s = planned(exec.plan_matmuls_stream_k(&one));
    // 8 x 7 tiles; whole rows of at most one wave of 46 are data parallel.
    assert_eq!(s.push.n_tiles, 7);
    assert_eq!(s.push.dp_tiles_total, s.dp_rows * 7);
    assert_eq!(s.push.total_iters_sk, (56 - s.push.dp_tiles_total) * 16);
    assert!(s.clear_c && s.tail_groups == s.push.g_sk);
    assert_eq!(s.push.bytes().len(), 88);
    assert_eq!(s.total_flops, 2 * 1024 * 512 * 896);
    let dp = planned(exec.plan_matmuls_stream_k_dp_only(&one));
    assert_eq!((dp.dp_rows, dp.tail_groups, dp.clear_c, dp.barrier), (8, 0, false, false));
    let sum = MatmulCall { accumulate: true, ..one };
    assert!(refusal(exec.plan_matmuls_stream_k(&sum)).starts_with("run_matmuls_stream_k"));
    let mut plain = device();
    plain.atomic_float_add_enabled = false;
    assert!(executor(&plain).plan_matmuls_stream_k(&one).is_err());
    let odd = tensor(4, &[1000, 512]);
    let out = tensor(5, &[1000, 896]);
    assert!(exec.plan_matmuls_stream_k(&call(&odd, &b, &out)).is_err());
}

#[test]
fn persistent_grid_is_resident() {
    let p = PersistentMatmul::new(&device(), 128, 0xC0).ok().unwrap();
    let (a, b, c) = (tensor(1, &[1024, 256]), tensor(2, &[256, 1024]), tensor(3, &[1024, 1024]));
    let d = planned(p.prepare_dispatch(&call(&a, &b, &c)));
    assert_eq!((d.push.grid_x, d.push.grid_y, d.push.num_tiles), (16, 8, 128));
    assert_eq!((d.group_count_x, d.variant), (92, 14));
    assert_eq!(d.push.counter_ptr, 0xC0);
    assert_eq!(d.push.bytes().len(), 80);
    assert_eq!(d.push.bytes()[72..76], 128u32.to_ne_bytes());
    assert_eq!(variant_constants(14), [0, 1, 1, 1]);
    let (a, b, c) = (tensor(1, &[100, 30]), tensor(2, &[30, 50]), tensor(3, &[100, 50]));
    let small = MatmulCall { accumulate: true, alpha: scalar(2.0), ..call(&a, &b, &c) };
    let d = planned(p.prepare_dispatch(&small));
    assert_eq!((d.group_count_x, d.variant, d.push.flags), (1, 1, 1));
    assert!(refusal(p.prepare_dispatch(&call(&a, &b, &a))).contains("alias"));
    let mut older = device();
    older.buffer_device_address_enabled = false;
    assert!(PersistentMatmul::new(&older, 128, 0).is_err());
    assert!(PersistentMatmul::new(&device(), 79, 0).is_err());
    let mut none = device();
    none.max_groups_x = 0;
    let p = PersistentMatmul::new(&none, 128, 0).ok().unwrap();
    assert!(p.prepare_dispatch(&small).is_err());
}

#[test]
fn prepared_replays_are_one_at_a_time() {
    let exec = executor(&device());
    let x = tensor(1, &[64, 64]);
    let w = tensor(2, &[64, 64]);
    let (p, q) = (tensor(3, &[64, 64]), tensor(4, &[64, 64]));
    let ops = plain_ops(&[call(&x, &w, &p), call(&p, &w, &q)]);
    assert!(exec.routable(&ops) && exec.check_preparable(&ops));
    let mut prepared = planned(exec.prepare_ops(&ops, true));
    match prepared.commands() {
        PreparedCommands::Graph(commands) => {
            assert_eq!(commands.len(), 2);
            assert!(!commands[0].barrier && commands[1].barrier);
        }
        _ => panic!("no barriers"),
    }
    assert!(prepared.check_submit().is_ok());
    assert!(prepared.check_wait().is_err());
    prepared.submitted();
    assert!(prepared.check_submit().is_err());
    assert!(prepared.check_wait().is_ok());
    let stats = prepared.completed(Some(5));
    assert_eq!((stats.gpu_time_ns, stats.n_calls), (Some(5), 2));
    assert_eq!(stats.total_flops, 2 * 2 * 64 * 64 * 64);
    assert!(prepared.check_submit().is_ok());
    match planned(exec.prepare_ops(&ops, false)).commands() {
        PreparedCommands::Batch(commands) => assert_eq!(commands.len(), 2),
        _ => panic!("barriers"),
    }
    let mut older = device();
    older.buffer_device_address_enabled = false;
    assert!(executor(&older).prepare_ops(&ops, true).is_err());
}

#[test]
fn mixed_graph_separates_dependent_steps() {
    let exec = executor(&device());
    let x = tensor(1, &[8, 64]);
    let norm = tensor(2, &[64]);
    let y = tensor(3, &[8, 64]);
    let w = half(4, &[64, 64]);
    let z = tensor(5, &[8, 64]);
    let s = tensor(6, &[8, 64]);
    let eps = scalar(1e-5);
    let ops = [
        ExecOp::RmsNorm { input: &x, weight: &norm, output: &y, eps },
        ExecOp::Matmul(MatmulOp::new(call(&y, &w, &z))),
        ExecOp::SoftmaxRows { input: &x, output: &s, scale: eps, mask: SoftmaxMask::Full },
        ExecOp::Binary { a: &z, b: &s, out: &z, op: BinaryOp::SiluMul },
    ];
    assert!(exec.exec_ops_ready(&ops));
    let plan = planned(exec.plan_run_exec_ops(&ops));
    assert_eq!((plan.steps.len(), plan.total_flops), (4, 2 * 8 * 64 * 64));
    let commands = planned(exec.record_exec_ops(&ops, &plan));
    let barriers: Vec<bool> = commands.iter().map(|c| c.barrier).collect();
    assert_eq!(barriers, vec![false, true, false, true]);
    assert!(matches!(commands[1].step, ExecStep::Matmul(m) if m.bind));
    assert_eq!(planned(exec.exec_ops_barrier_count(&ops)), (4, 2));
    assert!(exec.plan_run_exec_ops(&[]).is_err());
}

#[test]
fn decode_attention_plans_two_separated_steps() {
    let exec = executor(&device());
    let q = tensor(1, &[8, 64]);
    let kt = tensor(2, &[2, 64, 128]);
    let v = tensor(3, &[2, 128, 64]);
    let scratch = tensor(4, &[2 * 32 * 4 * 66]);
    let out = tensor(5, &[8, 64]);
    let result = HostU32Buffer::over(buffer(6));
    let desc = AttnDecodeDesc { kv_len: 9, scale: scalar(0.125), pos_addr: 0 };
    let ops = [
        ExecOp::AttnDecode { q: &q, kt: &kt, v: &v, scratch: &scratch, out: &out, desc },
        ExecOp::Argmax { input: &out, result: &result },
    ];
    assert_eq!(planned(exec.exec_ops_barrier_count(&ops)), (3, 2));
    let plan = planned(exec.plan_exec_ops(&ops));
    assert_eq!(plan.steps.iter().map(|s| s.op).collect::<Vec<_>>(), vec![0, 0, 1]);
    assert!(matches!(plan.steps[0].planned, Planned::Elementwise(_)));
    let pos = PosBuffer::over(buffer(9));
    let moving = AttnDecodeDesc { pos_addr: pos.device_address(), ..desc };
    let ops = [
        ExecOp::AttnDecode { q: &q, kt: &kt, v: &v, scratch: &scratch, out: &out, desc: moving },
    ];
    let (mut prepared, plan) = planned(exec.prepare_exec_ops(&ops, Some(&pos)));
    assert_eq!(plan.steps.len(), 2);
    match prepared.commands() {
        PreparedCommands::Mixed(commands) => {
            assert!(!commands[0].barrier && commands[1].barrier);
        }
        _ => panic!("not a mixed graph"),
    }
    prepared.submitted();
    assert_eq!(prepared.completed(None).n_calls, 1);
    assert_eq!(
        refusal(exec.prepare_exec_ops(&ops, None)),
        "prepare_exec_ops: op references pos_addr 0x900000 but the prepared position buffer is 0x0 \
         (pass the same PosBuffer)"
    );
    assert_eq!(
        refusal(exec.prepare_exec_ops(&[], None)),
        "prepare_exec_ops: empty op list"
    );
}

#[test]
fn chain_is_one_step_of_a_graph() {
    let exec = executor(&device());
    let x = tensor(1, &[1, 64]);
    let w = half(2, &[64, 64]);
    let y = tensor(3, &[1, 64]);
    let z = tensor(4, &[1, 64]);
    let jobs = [MatmulOp::new(call(&x, &w, &y)), MatmulOp::new(call(&y, &w, &z))];
    let ops = [ExecOp::GemvChain { jobs: &jobs }];
    let plan = planned(exec.plan_exec_ops(&ops));
    assert_eq!((plan.steps.len(), plan.total_flops), (1, 2 * 2 * 64 * 64));
    match &plan.steps[0].planned {
        Planned::Chain(chain) => assert_eq!((chain.jobs.len(), chain.n_wg), (2, 2)),
        _ => panic!("not a chain"),
    }
    let commands = planned(exec.record_exec_ops(&ops, &plan));
    assert!(matches!(commands[0].step, ExecStep::Chain { step: 0 }));
}

#[test]
fn transfers_stay_within_the_buffer() {
    let exec = executor(&device());
    let f = Tensor::uninit_device(&[4], Buffer { bytes: 16, ..buffer(1) }).ok().unwrap();
    let h = Tensor::uninit_device_f16(&device(), &[4], Buffer { bytes: 16, ..buffer(2) }).ok().unwrap();
    assert_eq!(planned(exec.plan_upload(4, &f)), Some(16));
    assert_eq!(planned(exec.plan_download(&h, 4)), Some(8));
    assert_eq!(planned(exec.plan_upload(0, &f)), None);
    assert_eq!(refusal(exec.plan_upload(5, &f)), "upload: 20 bytes > tensor capacity 16");
    assert_eq!(
        refusal(exec.plan_download(&f, usize::MAX)),
        "slice size does not fit VkDeviceSize"
    );
    assert!(needs_new_buffer(None, 0) && needs_new_buffer(Some(3), 4));
    assert!(!needs_new_buffer(Some(4), 4));
    assert_eq!(slot_descriptors(64).ok(), Some(192));
    assert!(slot_descriptors(u32::MAX / 3 + 1).is_err());
}

#[test]
fn tuning_is_for_one_plain_unmeasured_shape() {
    let ctx = device();
    let pipe = pipeline(&ctx, KernelSelection::Auto, None);
    let config = ExecutorConfig { tune: true, ..ExecutorConfig::default() };
    let mut exec = Executor::new_with_config(&ctx, pipe, config).ok().unwrap();
    let (a, b, c) = (tensor(1, &[512, 512]), tensor(2, &[512, 512]), tensor(3, &[512, 512]));
    let op = MatmulOp::new(call(&a, &b, &c));
    let (resolved, flops) = planned(exec.check_ops(&[op]));
    assert_eq!(flops, 2 * 512 * 512 * 512);
    let key = TuneKey { batch: 1, m: 512, n: 512, k: 512, b_f16: false };
    assert_eq!(exec.tuning_key(&[op], &resolved), Some(key));
    assert!(Executor::is_plain(&op));
    let candidates = planned(exec.tune_candidates(&resolved[0]));
    assert!(candidates.len() > 1);
    assert!(candidates.iter().all(|&slot| exec.check_forced(slot).is_ok()));
    assert!(planned(exec.check_tune_shape(key)));
    let (stored, entry) = tuned_entry(&resolved[0], candidates[0], Some((8, 100)));
    assert_eq!((stored, entry), (key, TuneEntry { kernel: candidates[0], splitk2_splits: Some(8) }));
    exec.record_tuned(key, entry);
    assert_eq!(exec.tuning_key(&[op], &resolved), None);
    assert!(!planned(exec.check_tune_shape(key)));
    let fused = MatmulOp::with_epilogue(
        call(&a, &b, &c),
        Epilogue { activation: Activation::Relu, ..Epilogue::default() },
    );
    assert!(!Executor::is_plain(&fused));
    assert!(exec.split_probes(&resolved[0]).iter().all(|&s| s >= 2));
}

#[test]
fn a_measurement_is_planned_before_it_is_run() {
    let exec = executor(&device());
    let (a, b, c) = (tensor(1, &[64, 2048]), tensor(2, &[2048, 64]), tensor(3, &[64, 64]));
    let one = call(&a, &b, &c);
    let dims = planned(ResolvedMatmul::from_call(&one));
    let plan = planned(exec.plan_tuning(&dims));
    let len = plan.candidates.len();
    assert_eq!(plan.order.len(), 5 * len);
    assert!(plan.candidates.contains(&plan.warmup));
    // At least 128 of K have to be left for every split.
    assert_eq!(plan.probes, vec![4, 8, 16]);
    let split_order: Vec<(u32, usize)> =
        (0..3).flat_map(|probe| (0..5).map(move |round| (round, probe))).collect();
    assert_eq!(plan.probe_order, split_order);

    // The last candidate is fastest; warmup times do not count.
    let time = |candidate: usize| 10_000 - 1_000 * candidate as u64 / len as u64;
    let times: Vec<Option<u64>> = plan
        .order
        .iter()
        .map(|&(round, c)| Some(if round == 0 { 1 } else { time(c) }))
        .collect();
    let none = vec![None; plan.probe_order.len()];
    let (key, entry) = planned(plan.conclude(&dims, &times, &none));
    assert_eq!((key.m, key.n, key.k, key.b_f16), (64, 64, 2048, false));
    assert_eq!(entry.splitk2_splits, None);
    assert!(plan.candidates.contains(&entry.kernel));
    let split_times: Vec<Option<u64>> = plan
        .probe_order
        .iter()
        .map(|&(round, probe)| Some(if round == 0 { 1 } else { 4_000 - probe as u64 }))
        .collect();
    let (_, entry) = planned(plan.conclude(&dims, &times, &split_times));
    assert_eq!(entry.splitk2_splits, Some(16));
    let missing = vec![None; plan.order.len()];
    assert_eq!(
        refusal(plan.conclude(&dims, &missing, &none)),
        "no candidate produced a measurement"
    );
}

#[test]
fn samples_leave_out_the_warmup_round() {
    let order = [(0, 0), (0, 1), (1, 1), (1, 0), (2, 0), (2, 1)];
    let times = [Some(1), Some(2), Some(3), None, Some(5), Some(6)];
    assert_eq!(collect_samples(3, &order, &times), vec![vec![5], vec![3, 6], vec![]]);
    assert_eq!(warmup_candidate(&[4, 7], 7), 7);
    assert_eq!(warmup_candidate(&[4, 7], 9), 4);
}

#[test]
fn only_a_lone_operation_splits_as_a_whole() {
    let exec = executor(&device());
    let (x, w, y) = (tensor(1, &[64, 8192]), tensor(2, &[8192, 64]), tensor(3, &[64, 64]));
    let ops = plain_ops(&[call(&x, &w, &y)]);
    assert_eq!(planned(exec.plan_ops(&ops, false)).lone_split(false), Some(64));
    assert_eq!(planned(exec.plan_ops(&ops, true)).lone_split(true), None);
    let twice = [ops[0], ops[0]];
    assert_eq!(planned(exec.plan_ops(&twice, false)).lone_split(false), None);
}

#[test]
fn refused_graphs_need_nothing_of_what_comes_later() {
    let exec = executor(&device());
    let (x, y) = (tensor(1, &[8, 64]), tensor(2, &[8, 64]));
    let narrow = tensor(3, &[8, 32]);
    let (scale, mask) = (scalar(1.0), SoftmaxMask::Full);
    let good = ExecOp::SoftmaxRows { input: &x, output: &y, scale, mask };
    let bad = ExecOp::SoftmaxRows { input: &x, output: &narrow, scale, mask };
    let desc = CopyDesc {
        extent: [u32::MAX; 3],
        src_offset: 0,
        src_strides: [1; 3],
        dst_offset: 0,
        dst_strides: [1; 3],
        pos_addr: 0x900_0000,
        pos_scale: 1,
    };
    // Its elements cannot be counted.
    let vast = ExecOp::CopyStrided { src: &x, dst: &y, desc };
    assert!(!exec.exec_op_ready(&vast));
    assert!(!exec.exec_ops_ready(&[good, vast]));
    assert!(!exec.check_graph_ready(&[good, vast], OpName::RunExecOps));

    // A refused operation stands before it.
    let refused = [good, bad, vast];
    assert!(exec.exec_ops_ready(&refused));
    let reason = refusal(exec.plan_exec_ops(&refused));
    assert_eq!(refusal(exec.plan_exec_op(&bad, 1)), reason);
    assert_eq!(refusal(exec.plan_run_exec_ops(&refused)), reason);
    assert_eq!(refusal(exec.exec_ops_barrier_count(&refused)), reason);

    // The graph reads another position cell than the prepared one.
    assert!(exec.check_prepare_ready(&[good, vast], None));
    assert_eq!(
        refusal(exec.prepare_exec_ops(&[good, vast], None)),
        "prepare_exec_ops: op references pos_addr 0x9000000 but the prepared position buffer is 0x0 \
         (pass the same PosBuffer)"
    );
    assert_eq!(
        refusal(exec.plan_prepare_exec_ops(&[good, vast], None)),
        refusal(exec.prepare_exec_ops(&[good, vast], None))
    );

    // The device has no buffer addresses.
    let mut older = device();
    older.buffer_device_address_enabled = false;
    let without = executor(&older);
    assert!(without.check_graph_ready(&[vast], OpName::ExecOpsBarrierCount));
    assert!(without.check_prepare_ready(&[vast], None));
    assert!(refusal(without.plan_run_exec_ops(&[vast])).starts_with("run_exec_ops: "));
    assert!(refusal(without.exec_ops_barrier_count(&[vast])).starts_with("exec_ops_barrier_count: "));
    assert!(refusal(without.prepare_exec_ops(&[vast], None)).starts_with("prepare_exec_ops: "));
}

#[test]
fn measured_operands_ask_for_their_shape() {
    assert_eq!(tune_operand_shape(1, 64, 32), vec![64, 32]);
    assert_eq!(tune_operand_shape(3, 64, 32), vec![3, 64, 32]);
    for batch in [1, 3] {
        let a = tensor(1, &tune_operand_shape(batch, 64, 2048));
        let b = tensor(2, &tune_operand_shape(batch, 2048, 32));
        let c = tensor(3, &tune_operand_shape(batch, 64, 32));
        let dims = planned(ResolvedMatmul::from_call(&call(&a, &b, &c)));
        assert_eq!((dims.batch, dims.m, dims.n, dims.k), (batch, 64, 32, 2048));
        let exec = executor(&device());
        assert!(exec.check_tuning_ready(&dims));
        let vast = ResolvedMatmul { batch: u32::MAX, m: u32::MAX, n: u32::MAX, ..dims };
        // No candidate fits the device, so there is nothing to count.
        assert!(exec.check_tuning_ready(&vast));
    }
}
