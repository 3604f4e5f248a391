//! What is refused, and in which words.

use tensor_ash::context::{DeviceKind, VulkanContext};
use tensor_ash::dtype::{DType, Scalar};
use tensor_ash::error::{Error, OpName};
use tensor_ash::executor::cells::HostU32Buffer;
use tensor_ash::executor::elementwise::common::{
    AttnDecodeDesc, BinaryOp, FlashAttentionDesc, PrefillQkvPackDesc, RopeDesc, SoftmaxMask,
};
use tensor_ash::executor::graph_ops::ExecOp;
use tensor_ash::executor::plan::{Executor, ExecutorConfig};
use tensor_ash::executor::splitk2::SplitK2Dispatch;
use tensor_ash::executor::streamk_schedule::StreamKSchedule;
use tensor_ash::executor::transfer::slot_descriptors;
use tensor_ash::matmul::api::{
    Activation, Epilogue, EpilogueBinary, MatmulCall, MatmulOp, MatmulStoreDesc,
};
use tensor_ash::matmul::resolution::ResolvedMatmul;
use tensor_ash::persistent::PersistentMatmul;
use tensor_ash::pipeline::catalog::{KernelSelection, KERNEL_COUNT};
use tensor_ash::pipeline::registry::{MatmulPipeline, EXTRA_SHADERS};
use tensor_ash::pipeline::tuning::TuneKey;
use tensor_ash::tensor::{Buffer, Tensor};

fn device() -> VulkanContext {
    VulkanContext {
        id: 1,
        device_kind: DeviceKind::DiscreteGpu,
        vendor_id: 0x10de,
        device_id: 0x84,
        driver_version: 595,
        buffer_device_address_enabled: true,
        f16_storage_enabled: true,
        coopmat_enabled: true,
        coopmat2_enabled: true,
        memory_model_device_scope_enabled: true,
        atomic_float_add_enabled: true,
        timestamps_supported: true,
        timestamp_valid_bits: 64,
        workgroup_shared_budget: 49_152,
        max_groups_x: 65_535,
        max_groups_y: 65_535,
        max_groups_z: 65_535,
    }
}

fn shared_bytes() -> Vec<u32> {
    (0..KERNEL_COUNT)
        .map(|i| {
            let spec = KernelSelection::at_index(i).kernel_spec();
            if spec.tile_k == 1 {
                2048
            } else {
                4 * (spec.tile_m * (spec.tile_k + 1) + spec.tile_k * spec.tile_n)
            }
        })
        .collect()
}

fn binaries() -> Vec<Vec<u8>> {
    (0..KERNEL_COUNT + EXTRA_SHADERS).map(|i| vec![i as u8; 8]).collect()
}

fn pipeline(ctx: &VulkanContext, selection: KernelSelection, store: Option<&str>) -> MatmulPipeline {
    MatmulPipeline::new_with_kernel_selection(ctx, selection, &binaries(), &shared_bytes(), store)
        .ok()
        .unwrap()
}

fn executor(ctx: &VulkanContext) -> Executor {
    let pipe = pipeline(ctx, KernelSelection::Auto, None);
    Executor::new_with_config(ctx, pipe, ExecutorConfig::default()).ok().unwrap()
}

fn scalar(value: f32) -> Scalar {
    Scalar { bits: value.to_bits() }
}

fn buffer(handle: u64) -> Buffer {
    Buffer { context: 1, handle, address: 0x10_0000 * handle, bytes: 1 << 30 }
}

fn tensor(handle: u64, shape: &[u32]) -> Tensor {
    let bytes = Tensor::allocation_size(shape, DType::F32).ok().unwrap();
    Tensor::uninit_device(shape, Buffer { bytes, ..buffer(handle) }).ok().unwrap()
}

fn half(handle: u64, shape: &[u32]) -> Tensor {
    let bytes = Tensor::allocation_size(shape, DType::F16).ok().unwrap();
    Tensor::uninit_device_f16(&device(), shape, Buffer { bytes, ..buffer(handle) }).ok().unwrap()
}

fn refusal<T>(r: Result<T, Error>) -> String {
    match r {
        Ok(_) => panic!("not refused"),
        Err(e) => e.to_string(),
    }
}

fn call<'a>(a: &'a Tensor, b: &'a Tensor, c: &'a Tensor) -> MatmulCall<'a> {
    MatmulCall { a, b, c, alpha: scalar(1.0), accumulate: false }
}

fn index(selection: KernelSelection) -> usize {
    selection.index().unwrap()
}

#[test]
fn shapes_beyond_the_shaders_are_refused() {
    let shapes = |a: &[u32], b: &[u32], c: &[u32]| refusal(ResolvedMatmul::from_shapes(a, b, c));
    assert_eq!(
        shapes(&[2, 65_536, 65_536], &[65_536, 1], &[2, 65_536, 1]),
        "A batch stride overflows u32"
    );
    assert_eq!(
        shapes(&[1, u32::MAX], &[u32::MAX, 1], &[u32::MAX, 1, 1]),
        "matmul FLOP count overflows u64"
    );
}

#[test]
fn unknown_kernels_are_named() {
    let text = refusal(KernelSelection::parse("nope"));
    assert!(text.starts_with("invalid ML_KERNEL 'nope', expected one of auto, large, small"));
    assert!(text.ends_with("or an f16w_* kernel (f16 weights)"));
}

#[test]
fn stream_k_calls_are_refused_by_entry() {
    let exec = executor(&device());
    let (a, b, c) = (tensor(1, &[128, 32]), tensor(2, &[32, 128]), tensor(3, &[128, 128]));
    let sum = MatmulCall { accumulate: true, ..call(&a, &b, &c) };
    assert_eq!(
        refusal(exec.plan_matmuls_stream_k(&sum)),
        "run_matmuls_stream_k: accumulate=true is not supported"
    );
    let (ba, bc) = (tensor(4, &[2, 128, 32]), tensor(5, &[2, 128, 128]));
    assert_eq!(
        refusal(exec.plan_matmuls_stream_k_dp_only(&call(&ba, &b, &bc))),
        "run_matmuls_stream_k_dp_only: only batch==1 is supported (got batch=2)"
    );
    let (oa, oc) = (tensor(6, &[100, 32]), tensor(7, &[100, 128]));
    let odd = call(&oa, &b, &oc);
    assert_eq!(
        refusal(exec.plan_matmuls_stream_k(&odd)),
        "run_matmuls_stream_k: shape 100x128x32 not aligned to (128,128,32)"
    );
    assert_eq!(
        refusal(exec.plan_matmuls_stream_k_dp_only(&odd)),
        "run_matmuls_stream_k_dp_only: shape 100x128x32 not aligned"
    );
    let fine = call(&a, &b, &c);
    let mut low = device();
    low.atomic_float_add_enabled = false;
    assert_eq!(
        refusal(executor(&low).plan_matmuls_stream_k(&fine)),
        "run_matmuls_stream_k: VK_EXT_shader_atomic_float (shaderBufferFloat32AtomicAdd) not \
         available on this device"
    );
    assert_eq!(
        refusal(executor(&low).plan_matmuls_stream_k_dp_only(&fine)),
        "run_matmuls_stream_k_dp_only: VK_EXT_shader_atomic_float not available"
    );
    low.buffer_device_address_enabled = false;
    assert_eq!(
        refusal(executor(&low).plan_matmuls_stream_k(&fine)),
        "run_matmuls_stream_k: bufferDeviceAddress not available on this device"
    );
    assert_eq!(
        refusal(executor(&low).plan_matmuls_stream_k_dp_only(&fine)),
        "run_matmuls_stream_k_dp_only: bufferDeviceAddress not available"
    );
    let mut small = device();
    small.max_groups_x = 0;
    assert_eq!(
        refusal(executor(&small).plan_matmuls_stream_k_dp_only(&fine)),
        "stream-K dispatch DP=(1, 1, 1) SK=(0, 1, 1) exceeds device maxComputeWorkGroupCount (0, \
         65535, 65535)"
    );
    assert_eq!(
        refusal(StreamKSchedule::try_for_shape(u32::MAX, 1, 100, 1, 1, 1, 46)),
        "Stream-K grid size overflows u32"
    );
}

#[test]
fn split_k_calls_are_refused() {
    let exec = executor(&device());
    let (a, b, c) = (tensor(1, &[256, 4096]), tensor(2, &[4096, 256]), tensor(3, &[256, 256]));
    let one = call(&a, &b, &c);
    let split = |c: &MatmulCall<'_>, n| refusal(exec.plan_matmuls_split_k2(c, n));
    assert_eq!(
        split(&MatmulCall { accumulate: true, ..one }, 8),
        "run_matmuls_split_k2: accumulate=true is not supported"
    );
    assert_eq!(
        split(&one, 70_000),
        "run_matmuls_split_k2: num_k_splits=70000 out of range [1, 65535]"
    );
    assert_eq!(split(&one, 5000), "run_matmuls_split_k2: num_k_splits=5000 exceeds K=4096");
    let mut low = device();
    low.buffer_device_address_enabled = false;
    assert_eq!(
        refusal(executor(&low).plan_matmuls_split_k2(&one, 8)),
        "run_matmuls_split_k2: bufferDeviceAddress not enabled"
    );
    let mut low = device();
    low.max_groups_z = 7;
    assert_eq!(
        refusal(executor(&low).plan_matmuls_split_k2(&one, 8)),
        "split-K2 dispatch (2, 2, 8) exceeds device maxComputeWorkGroupCount (65535, 65535, 7)"
    );
    let dims = ResolvedMatmul::from_call(&one).ok().unwrap();
    for splits in [0, 1, 65_536] {
        assert_eq!(
            refusal(SplitK2Dispatch::plan(&device(), &dims, splits)),
            format!("split-K2: splits={splits} out of range [2, 65535]")
        );
    }
    let mut narrow = device();
    narrow.max_groups_x = 63;
    assert_eq!(
        refusal(SplitK2Dispatch::plan(&narrow, &dims, 8)),
        "split-K2 reduce dispatch (64) exceeds device maxComputeWorkGroupCount[0]"
    );
    let mut wide = dims;
    (wide.batch, wide.m, wide.n) = (1 << 31, 1, 1);
    assert_eq!(
        refusal(SplitK2Dispatch::plan(&device(), &wide, 2)),
        "split-K2 dispatch grid Z overflows u32"
    );
}

#[test]
fn kernels_refuse_what_they_do_not_implement() {
    let exec = executor(&device());
    let (a, b, c) = (tensor(1, &[128, 128]), tensor(2, &[128, 128]), tensor(3, &[128, 128]));
    let (ha, hb, hc) = (half(4, &[128, 128]), half(5, &[128, 128]), half(6, &[128, 128]));
    let forced = |exec: &Executor, op: &MatmulOp<'_>, selection| {
        let dims = ResolvedMatmul::from_op(op).ok().unwrap();
        refusal(exec.record_one_matmul(op, &dims, index(selection), &mut None))
    };
    let plain = MatmulOp::new(call(&a, &b, &c));
    assert_eq!(
        forced(&exec, &plain, KernelSelection::F16wK64BdaV4),
        "kernel 'f16w_k64_bda_v4' expects f16 B storage but B is f32 (pick an f32 kernel or unset \
         ML_KERNEL)"
    );
    let weights = MatmulOp::new(call(&a, &hb, &c));
    assert_eq!(
        forced(&exec, &weights, KernelSelection::K64BdaV4),
        "kernel 'k64_bda_v4' expects f32 B storage but B is f16 (pick an f16w_* kernel or unset \
         ML_KERNEL)"
    );
    let halves = MatmulOp::new(call(&ha, &hb, &hc));
    assert_eq!(
        forced(&exec, &halves, KernelSelection::F16wCoopmat),
        "kernel 'f16w_coopmat_aligned' expects f32 A storage but A is f16 (pick a matching kernel \
         or unset ML_KERNEL)"
    );
    let row = tensor(7, &[1, 128]);
    let out = tensor(8, &[1, 128]);
    let gemv = MatmulOp::new(call(&row, &hb, &out));
    assert_eq!(
        forced(&exec, &gemv, KernelSelection::F16wRowBdaK16Packed),
        "kernel 'f16w_row_bda_k16_packed' and B disagree on the packed layout (unset ML_KERNEL)"
    );
    let fused = MatmulOp::with_epilogue(
        call(&a, &b, &c),
        Epilogue { activation: Activation::Gelu, ..Epilogue::default() },
    );
    assert_eq!(
        forced(&exec, &fused, KernelSelection::Small),
        "kernel 'small_64' does not support fused epilogues (only the BDA / BDA_V4 kernel families \
         do; unset ML_KERNEL or pick a *_bda / *_bda_v4 variant)"
    );
    let norm = tensor(9, &[128]);
    let normed = plain.with_normed_a(&norm, scalar(1e-5));
    assert_eq!(
        forced(&exec, &normed, KernelSelection::SmallBdaV4),
        "kernel 'small_bda_v4' does not implement the fused normed-A GEMV (row_bda-family kernels \
         only; normed-A requires an M=1 row-kernel route, got M=128)"
    );
    let table = tensor(10, &[4, 32, 2]);
    let desc = MatmulStoreDesc { head_dim: 64, ..MatmulStoreDesc::default() };
    let stored = gemv.with_store_rope(&table, desc);
    assert_eq!(
        forced(&exec, &stored, KernelSelection::F16wSmallBdaV4),
        "kernel 'f16w_small_bda_v4' does not implement the fused store epilogue (f16w \
         row_bda-family kernels only; store requires an M=1 f16-weights row route, got M=1)"
    );
    let mut small = device();
    small.max_groups_y = 1;
    assert_eq!(
        forced(&executor(&small), &plain, KernelSelection::SmallBdaV4),
        "matmul dispatch (2, 2, 1) for M=128, N=128, K=128, batch=1 exceeds device \
         maxComputeWorkGroupCount (65535, 1, 65535)"
    );
    let mut older = device();
    older.buffer_device_address_enabled = false;
    let old = executor(&older);
    assert_eq!(
        forced(&old, &weights, KernelSelection::F16wK64BdaV4),
        "f16-weight matmuls require bufferDeviceAddress, which this device lacks"
    );
    assert_eq!(
        forced(&old, &fused, KernelSelection::SmallBdaV4),
        "fused epilogues require bufferDeviceAddress, which this device lacks"
    );
}

#[test]
fn preparing_and_replaying_is_refused() {
    let (a, b, c) = (tensor(1, &[64, 64]), tensor(2, &[64, 64]), tensor(3, &[64, 64]));
    let ops = [MatmulOp::new(call(&a, &b, &c))];
    let exec = executor(&device());
    assert_eq!(refusal(exec.prepare_ops(&[], false)), "prepare_ops: empty op batch");
    let mut older = device();
    older.buffer_device_address_enabled = false;
    assert_eq!(
        refusal(executor(&older).prepare_ops(&ops, false)),
        "prepared submission requires bufferDeviceAddress, which this device lacks"
    );
    let ctx = device();
    let explicit = pipeline(&ctx, KernelSelection::K64, None);
    let bound =
        Executor::new_with_config(&ctx, explicit, ExecutorConfig::default()).ok().unwrap();
    assert_eq!(
        refusal(bound.prepare_ops(&ops, false)),
        "prepared submission supports only BDA kernels; 'k64' binds descriptor sets (unset \
         ML_KERNEL or pick a *_bda / *_bda_v4 variant)"
    );
    assert_eq!(
        refusal(bound.plan_run_exec_ops(&[ExecOp::Matmul(ops[0])])),
        "run_exec_ops: kernel 'k64' binds descriptor sets and cannot be recorded in a mixed graph \
         (unset ML_KERNEL or pick a BDA kernel)"
    );
    assert_eq!(
        refusal(bound.check_forced(index(KernelSelection::K64))),
        "run_forced_once: descriptor-bound kernel 'k64'"
    );
    let mut prepared = exec.prepare_ops(&ops, false).ok().unwrap();
    assert_eq!(refusal(prepared.check_wait()), "PreparedOps::wait: nothing submitted");
    prepared.submitted();
    assert_eq!(
        refusal(prepared.check_submit()),
        "PreparedOps::submit: already in flight; call wait() first"
    );
}

#[test]
fn tuning_is_refused_without_means() {
    let (a, b, c) = (tensor(1, &[64, 64]), tensor(2, &[64, 64]), tensor(3, &[64, 64]));
    let dims = ResolvedMatmul::from_call(&call(&a, &b, &c)).ok().unwrap();
    let mut none = device();
    none.max_groups_x = 0;
    assert_eq!(
        refusal(executor(&none).plan_tuning(&dims)),
        "no tunable kernel fits this shape and device's dispatch limits"
    );
    let mut untimed = device();
    untimed.timestamps_supported = false;
    let key = TuneKey { batch: 1, m: 64, n: 64, k: 64, b_f16: false };
    assert_eq!(
        refusal(executor(&untimed).check_tune_shape(key)),
        "tune_shape: device has no timestamp support"
    );
    assert_eq!(refusal(slot_descriptors(u32::MAX)), "slot descriptor count overflows u32");
}

#[test]
fn persistent_runs_are_refused() {
    let mut older = device();
    older.buffer_device_address_enabled = false;
    assert_eq!(
        refusal(PersistentMatmul::new(&older, 128, 0)),
        "persistent kernel requires Vulkan 1.2 bufferDeviceAddress"
    );
    assert_eq!(
        refusal(PersistentMatmul::new(&device(), 64, 0)),
        "persistent push constants require 80 bytes; device limit is 64"
    );
    let runner = PersistentMatmul::new(&device(), 128, 0).ok().unwrap();
    let (a, b, c) = (tensor(1, &[64, 64]), tensor(2, &[64, 64]), tensor(3, &[64, 64]));
    let foreign = Tensor::uninit_device(&[64, 64], Buffer { context: 5, bytes: 16_384, ..buffer(4) }).ok().unwrap();
    let run = |call: MatmulCall<'_>| refusal(runner.prepare_dispatch(&call));
    assert_eq!(
        run(call(&a, &foreign, &c)),
        "persistent kernel: tensor B belongs to a different Vulkan context"
    );
    assert_eq!(
        run(call(&a, &b, &b)),
        "persistent kernel: output C must not alias input A or B"
    );
    let mut none = device();
    none.max_groups_x = 0;
    let idle = PersistentMatmul::new(&none, 128, 0).ok().unwrap();
    assert_eq!(
        refusal(idle.prepare_dispatch(&call(&a, &b, &c))),
        "persistent kernel: device reports a zero dispatch-X limit"
    );
}

#[test]
fn long_tensors_are_refused_by_the_row_kernels() {
    let exec = executor(&device());
    let long = tensor(1, &[65_536, 65_536, 1]);
    let other = tensor(2, &[65_536, 65_536, 1]);
    assert_eq!(
        refusal(exec.plan_softmax_rows(&long, &other, scalar(1.0), SoftmaxMask::Full)),
        "run_softmax_rows: row count 4294967296 exceeds u32"
    );
    let table = tensor(3, &[64, 64]);
    let desc = RopeDesc { heads: 1, head_dim: 2, rot_dim: 2, ..RopeDesc::default() };
    let longer = tensor(4, &[65_536, 65_536, 2]);
    assert_eq!(
        refusal(exec.plan_rope(&longer, &table, &longer, desc)),
        "run_rope: token count exceeds u32"
    );
    assert_eq!(
        refusal(exec.plan_binary(&long, &other, &long, BinaryOp::SiluMul)),
        "run_binary: too large"
    );
    let cell = HostU32Buffer::over(buffer(5));
    assert_eq!(
        refusal(exec.plan_argmax(&long, &cell)),
        "run_argmax: input length exceeds u32"
    );
    let stranger = Buffer { context: 3, ..buffer(6) };
    let row = tensor(7, &[64]);
    assert_eq!(
        refusal(exec.plan_embed_gather(&stranger, &table, &row)),
        "run_embed_gather: token buffer belongs to a different VulkanContext"
    );
}

#[test]
fn decode_attention_refuses_odd_operands() {
    let exec = executor(&device());
    let q = tensor(1, &[8, 64]);
    let kt = tensor(2, &[2, 64, 128]);
    let v = tensor(3, &[2, 128, 64]);
    let scratch = tensor(4, &[2 * 32 * 4 * 66]);
    let desc = AttnDecodeDesc { kv_len: 9, scale: scalar(0.125), pos_addr: 0 };
    let attend = |q: &Tensor, kt: &Tensor, v: &Tensor, out: &Tensor| {
        refusal(exec.plan_attn_decode(q, kt, v, &scratch, out, desc))
    };
    let hv = half(5, &[2, 128, 64]);
    assert_eq!(
        attend(&q, &kt, &hv, &q),
        "run_attn_decode: kt (f32) and v (f16) must share a storage type"
    );
    let flat = tensor(6, &[128, 64]);
    assert_eq!(
        attend(&q, &flat, &v, &q),
        "run_attn_decode: kt must be [H_kv, dh, T_max], got [128, 64]"
    );
    assert_eq!(
        attend(&q, &kt, &flat, &q),
        "run_attn_decode: v must be [H_kv, T_max, dh], got [128, 64]"
    );
    let huge = tensor(8, &[65_536, 65_536, 256]);
    assert_eq!(attend(&huge, &kt, &v, &huge), "run_attn_decode: group exceeds u32");
    let odd = tensor(7, &[7, 64]);
    assert_eq!(
        attend(&odd, &kt, &v, &odd),
        "run_attn_decode: q length 448 must be kv_heads*group*dh (kv_heads 2, dh 64)"
    );
    assert_eq!(
        attend(&q, &kt, &v, &odd),
        "run_attn_decode: out length 448 must equal q length 512"
    );
}

#[test]
fn flash_attention_refuses_odd_operands() {
    let exec = executor(&device());
    let q = tensor(1, &[8, 200, 64]);
    let kt = tensor(2, &[2, 64, 512]);
    let v = tensor(3, &[2, 512, 64]);
    let desc = FlashAttentionDesc {
        kv_len: 256,
        pos_base: 0,
        scale: scalar(0.125),
        token_major_heads: None,
        out_token_major_heads: None,
    };
    let attend = |q: &Tensor, v: &Tensor, out: &Tensor, desc: FlashAttentionDesc| {
        refusal(exec.plan_flash_attention(q, &kt, v, out, desc, false))
    };
    let short = tensor(4, &[2, 511, 64]);
    assert_eq!(
        attend(&q, &short, &q, desc),
        "run_flash_attention: inconsistent cache shapes kt [2, 64, 512], v [2, 511, 64]"
    );
    let by_token = |heads| FlashAttentionDesc { token_major_heads: Some(heads), ..desc };
    let out_by_token = |heads| FlashAttentionDesc { out_token_major_heads: Some(heads), ..desc };
    assert_eq!(
        attend(&q, &v, &q, by_token(0)),
        "run_flash_attention: token_major_heads must be nonzero"
    );
    let rows = tensor(5, &[200, 512]);
    assert_eq!(
        attend(&rows, &v, &rows, by_token(7)),
        "run_flash_attention: token-major q [200, 512] does not hold [T=200, H=7, dh=64]"
    );
    assert_eq!(
        attend(&rows, &v, &rows, desc),
        "run_flash_attention: q must be [H, T_q, dh], got [200, 512]"
    );
    let thin = tensor(6, &[8, 200, 32]);
    assert_eq!(
        attend(&thin, &v, &thin, desc),
        "run_flash_attention: q dh 32 != cache dh 64 (q [8, 200, 32], kt [2, 64, 512])"
    );
    assert_eq!(
        attend(&q, &v, &q, out_by_token(0)),
        "run_flash_attention: out_token_major_heads must be nonzero"
    );
    let other = tensor(7, &[199, 512]);
    assert_eq!(
        attend(&q, &v, &other, out_by_token(8)),
        "run_flash_attention: token-major out [199, 512] does not hold [T=200, H=8, dh=64]"
    );
    assert_eq!(
        attend(&rows, &v, &other, by_token(8)),
        "run_flash_attention: out shape [199, 512] must match token-major q [200, 512]"
    );
}

#[test]
fn prefill_pack_refuses_odd_operands() {
    let exec = executor(&device());
    let desc = PrefillQkvPackDesc { heads: 8, kv_heads: 2, head_dim: 64, rot_dim: 64, pos_base: 0 };
    let table = tensor(2, &[512, 64]);
    let q = half(3, &[8, 128, 64]);
    let kt = half(4, &[2, 64, 512]);
    let v = half(5, &[2, 512, 64]);
    let cube = half(6, &[2, 64, 768]);
    assert_eq!(
        refusal(exec.plan_prefill_qkv_pack(&cube, &table, &q, &kt, &v, desc)),
        "run_prefill_qkv_pack: qkv must be [T, n_qkv], got [2, 64, 768]"
    );
    let qkv = half(1, &[128, 768]);
    let short = half(7, &[2, 256, 64]);
    assert_eq!(
        refusal(exec.plan_prefill_qkv_pack(&qkv, &table, &q, &kt, &short, desc)),
        "run_prefill_qkv_pack: cache shapes kt [2, 64, 512] v [2, 256, 64] vs H_kv=2 dh=64"
    );
    let odd = PrefillQkvPackDesc { heads: 1, kv_heads: 1, head_dim: 6, rot_dim: 6, pos_base: 0 };
    let (oqkv, oq) = (half(8, &[4, 18]), half(9, &[1, 4, 6]));
    let (okt, ov) = (half(10, &[1, 6, 16]), half(11, &[1, 16, 6]));
    assert_eq!(
        refusal(exec.plan_prefill_qkv_pack(&oqkv, &table, &oq, &okt, &ov, odd)),
        "run_prefill_qkv_pack: head_dim 6 must be a multiple of 4"
    );
}

#[test]
fn chains_refuse_stores_halves_and_other_activations() {
    let exec = executor(&device());
    let x = tensor(1, &[1, 1024]);
    let w = half(2, &[1024, 512]);
    let y = tensor(3, &[1, 512]);
    let plain = MatmulOp::new(call(&x, &w, &y));
    let chain = |op: MatmulOp<'_>| refusal(exec.plan_gemv_chain(&[op]));
    let cache = tensor(4, &[8, 64, 16]);
    let desc = MatmulStoreDesc { head_dim: 64, ..MatmulStoreDesc::default() };
    assert_eq!(
        chain(plain.with_store_scatter(&cache, desc)),
        "gemv_chain[0]: fused store epilogues are not supported"
    );
    let hx = half(5, &[1, 1024]);
    let mut halves = plain;
    halves.call.a = &hx;
    assert_eq!(chain(halves), "gemv_chain[0]: A and C must be f32 storage");
    let mut gelu = plain;
    gelu.epilogue.activation = Activation::Gelu;
    assert_eq!(chain(gelu), "gemv_chain[0]: unsupported activation Gelu");
    let (norm, d) = (tensor(6, &[1024]), tensor(7, &[1, 512]));
    let eps = scalar(1e-5);
    let mut normed = plain.with_normed_a(&norm, eps);
    normed.epilogue.binary = EpilogueBinary::AddScaled { d: &d, beta: eps };
    assert_eq!(
        refusal(exec.plan_gemv_chain(&[plain, normed])),
        "gemv_chain[1]: NORM_A cannot combine with AddScaled"
    );
    let mut later = normed;
    later.epilogue.activation = Activation::Relu;
    assert_eq!(chain(later), "gemv_chain[0]: unsupported activation Relu");
    let (rows, outs, ds) = (tensor(8, &[2, 1024]), tensor(9, &[2, 512]), tensor(10, &[2, 512]));
    let mut tall = MatmulOp::new(call(&rows, &w, &outs)).with_normed_a(&norm, eps);
    tall.epilogue.binary = EpilogueBinary::AddScaled { d: &ds, beta: eps };
    assert_eq!(chain(tall), "gemv_chain[0]: requires batch=1 M=1 (got B=1 M=2)");
    normed.epilogue.binary = EpilogueBinary::Mul { d: &d };
    assert!(exec.plan_gemv_chain(&[normed]).is_ok());
    let many = [plain; 9];
    for jobs in [&many[..0], &many[..]] {
        assert_eq!(
            refusal(exec.plan_exec_ops(&[ExecOp::GemvChain { jobs }])),
            format!("run_exec_ops: GemvChain n={} out of range", jobs.len())
        );
    }
    assert_eq!(OpName::RunExecOps.label(), "run_exec_ops");
}
