//! Elementwise dispatches: push constants, grids and refusals.

use tensor_ash::context::{DeviceKind, VulkanContext};
use tensor_ash::dtype::{DType, Scalar};
use tensor_ash::error::OpName;
use tensor_ash::executor::cells::{cell_bytes, HostU32Buffer, PosBuffer, TokenIdBuffer};
use tensor_ash::executor::elementwise::common::{
    attn_decode_num_chunks, AttnDecodeDesc, BinaryOp, Cm2Op, CopyDesc, ElementwiseDispatch,
    ElementwiseKernel, FlashAttentionDesc, Op, PrefillQkvPackDesc, RopeDesc, RopeScatterDesc,
    SoftmaxMask,
};
use tensor_ash::executor::elementwise::gemv_chain::{gemv_chain_vcols, gemv_jobs_hazard};
use tensor_ash::executor::plan::{Executor, ExecutorConfig};
use tensor_ash::matmul::api::{Activation, Epilogue, EpilogueBinary, MatmulCall, MatmulOp};
use tensor_ash::pipeline::catalog::{KernelSelection, KERNEL_COUNT};
use tensor_ash::pipeline::registry::{MatmulPipeline, EXTRA_SHADERS};
use tensor_ash::tensor::{Buffer, Tensor};

fn device() -> VulkanContext {
    VulkanContext {
        id: 1,
        device_kind: DeviceKind::DiscreteGpu,
        vendor_id: 0x10de,
        device_id: 0x84,
        driver_version: 595,
        buffer_device_address_enabled: true,
        f16_storage_enabled: true,
        coopmat_enabled: true,
        coopmat2_enabled: true,
        memory_model_device_scope_enabled: true,
        atomic_float_add_enabled: true,
        timestamps_supported: true,
        timestamp_valid_bits: 64,
        workgroup_shared_budget: 49_152,
        max_groups_x: 65_535,
        max_groups_y: 65_535,
        max_groups_z: 65_535,
    }
}

fn shared_bytes() -> Vec<u32> {
    (0..KERNEL_COUNT)
        .map(|i| {
            let spec = KernelSelection::at_index(i).kernel_spec();
            if spec.tile_k == 1 {
                2048
            } else {
                4 * (spec.tile_m * (spec.tile_k + 1) + spec.tile_k * spec.tile_n)
            }
        })
        .collect()
}

fn binaries() -> Vec<Vec<u8>> {
    (0..KERNEL_COUNT + EXTRA_SHADERS).map(|i| vec![i as u8; 8]).collect()
}

fn pipeline(ctx: &VulkanContext, selection: KernelSelection, store: Option<&str>) -> MatmulPipeline {
    MatmulPipeline::new_with_kernel_selection(ctx, selection, &binaries(), &shared_bytes(), store)
        .ok()
        .unwrap()
}

fn executor(ctx: &VulkanContext) -> Executor {
    let pipe = pipeline(ctx, KernelSelection::Auto, None);
    Executor::new_with_config(ctx, pipe, ExecutorConfig::default()).ok().unwrap()
}

fn scalar(value: f32) -> Scalar {
    Scalar { bits: value.to_bits() }
}

fn buffer(handle: u64) -> Buffer {
    Buffer { context: 1, handle, address: 0x10_0000 * handle, bytes: 1 << 30 }
}

fn tensor(handle: u64, shape: &[u32]) -> Tensor {
    let bytes = Tensor::allocation_size(shape, DType::F32).ok().unwrap();
    Tensor::uninit_device(shape, Buffer { bytes, ..buffer(handle) }).ok().unwrap()
}

fn half(handle: u64, shape: &[u32]) -> Tensor {
    let bytes = Tensor::allocation_size(shape, DType::F16).ok().unwrap();
    Tensor::uninit_device_f16(&device(), shape, Buffer { bytes, ..buffer(handle) }).ok().unwrap()
}

/// The block of a dispatch, as words.
fn words(dispatch: &ElementwiseDispatch) -> Vec<u32> {
    dispatch
        .push
        .bytes()
        .chunks(4)
        .map(|c| u32::from_ne_bytes([c[0], c[1], c[2], c[3]]))
        .collect()
}

/// The words of a block whose last fields are addresses.
fn block(fields: &[u32], addresses: &[u64]) -> Vec<u32> {
    let mut out = fields.to_vec();
    for address in addresses {
        let b = address.to_ne_bytes();
        out.push(u32::from_ne_bytes([b[0], b[1], b[2], b[3]]));
        out.push(u32::from_ne_bytes([b[4], b[5], b[6], b[7]]));
    }
    out
}

fn at(handle: u64) -> u64 {
    0x10_0000 * handle
}

fn planned<T>(r: Result<T, tensor_ash::error::Error>) -> T {
    match r {
        Ok(value) => value,
        Err(e) => panic!("refused: {}", e.to_string()),
    }
}

fn refusal<T>(r: Result<T, tensor_ash::error::Error>) -> String {
    match r {
        Ok(_) => panic!("planned"),
        Err(e) => e.to_string(),
    }
}

#[test]
fn softmax_takes_one_workgroup_per_row() {
    let exec = executor(&device());
    let x = tensor(1, &[2, 6, 10]);
    let y = tensor(2, &[2, 6, 10]);
    let one = 1f32.to_bits();
    let d = planned(exec.plan_softmax_rows(&x, &y, scalar(1.0), SoftmaxMask::Full));
    assert_eq!(d.kernel, ElementwiseKernel::Simt(Op::Softmax));
    assert_eq!((d.groups_x, d.groups_y), (12, 1));
    assert_eq!(words(&d), block(&[12, 10, 10, 1, 0, one], &[at(1), at(2)]));
    let d = planned(exec.plan_softmax_rows(&x, &y, scalar(1.0), SoftmaxMask::Prefix { valid: 99 }));
    assert_eq!(words(&d)[2], 10);
    let d = planned(exec.plan_softmax_rows(&x, &y, scalar(1.0), SoftmaxMask::Prefix { valid: 3 }));
    assert_eq!(words(&d)[2], 3);
    let mask = SoftmaxMask::Causal { prefix: 4, rows_per_group: 6 };
    let d = planned(exec.plan_softmax_rows(&x, &x, scalar(1.0), mask));
    assert_eq!(words(&d)[2..5], [4, 6, 1]);
    for rows_per_group in [0, 5] {
        let mask = SoftmaxMask::Causal { prefix: 4, rows_per_group };
        assert_eq!(
            refusal(exec.plan_softmax_rows(&x, &y, scalar(1.0), mask)),
            format!("run_softmax_rows: rows_per_group {rows_per_group} must divide rows 12")
        );
    }
}

#[test]
fn elementwise_checks_operands_in_order() {
    let exec = executor(&device());
    let x = tensor(1, &[4, 8]);
    let full = SoftmaxMask::Full;
    let foreign = Tensor::uninit_device(&[4, 8], Buffer { context: 9, bytes: 128, ..buffer(2) }).ok().unwrap();
    assert_eq!(
        refusal(exec.plan_softmax_rows(&foreign, &x, scalar(1.0), full)),
        "input tensor belongs to a different VulkanContext"
    );
    let y = tensor(2, &[8, 4]);
    assert_eq!(
        refusal(exec.plan_softmax_rows(&x, &y, scalar(1.0), full)),
        "run_softmax_rows: output shape [8, 4] must equal input shape [4, 8]"
    );
    let h = half(3, &[4, 8]);
    assert_eq!(
        refusal(exec.plan_softmax_rows(&h, &x, scalar(1.0), full)),
        "run_softmax_rows: input must be f32 storage"
    );
    let mut older = device();
    older.buffer_device_address_enabled = false;
    let old = executor(&older);
    assert_eq!(
        refusal(old.plan_softmax_rows(&x, &x, scalar(1.0), full)),
        "elementwise ops require bufferDeviceAddress, which this device lacks"
    );
    let mut small = device();
    small.max_groups_x = 3;
    let small = executor(&small);
    assert_eq!(
        refusal(small.plan_softmax_rows(&x, &x, scalar(1.0), full)),
        "elementwise dispatch (4, 1) exceeds device limits (3, 65535)"
    );
}

#[test]
fn norms_pick_their_specialization() {
    let exec = executor(&device());
    let x = tensor(1, &[3, 16]);
    let w = tensor(2, &[16]);
    let b = tensor(3, &[16]);
    let y = tensor(4, &[3, 16]);
    let eps = scalar(1e-5);
    let d = planned(exec.plan_norm(OpName::RmsNorm, &x, &w, None, &y, eps));
    assert_eq!(d.kernel, ElementwiseKernel::Simt(Op::RmsNorm));
    assert_eq!(words(&d), block(&[3, 16, eps.bits, 0], &[at(1), at(4), at(2), 0]));
    let d = planned(exec.plan_norm(OpName::LayerNorm, &x, &w, Some(&b), &y, eps));
    assert_eq!(d.kernel, ElementwiseKernel::Simt(Op::LayerNorm));
    assert_eq!(words(&d), block(&[3, 16, eps.bits, 0], &[at(1), at(4), at(2), at(3)]));
    let (hx, hy) = (half(5, &[3, 16]), half(6, &[3, 16]));
    let d = planned(exec.plan_norm(OpName::RmsNorm, &hx, &w, None, &hy, eps));
    assert_eq!(d.kernel, ElementwiseKernel::Simt(Op::RmsNormF16));
    assert_eq!(
        refusal(exec.plan_norm(OpName::LayerNorm, &hx, &w, Some(&b), &hy, eps)),
        "run_layer_norm: f16 activations are supported for RMSNorm only (no f16 LayerNorm kernel)"
    );
    let short = tensor(7, &[15]);
    assert_eq!(
        refusal(exec.plan_norm(OpName::RmsNorm, &x, &short, None, &y, eps)),
        "run_rms_norm: weight length 15 != row length 16"
    );
    assert_eq!(
        refusal(exec.plan_norm(OpName::LayerNorm, &x, &w, Some(&short), &y, eps)),
        "run_layer_norm: bias length 15 != row length 16"
    );
    assert_eq!(
        refusal(exec.plan_norm(OpName::RmsNorm, &x, &w, None, &hy, eps)),
        "run_rms_norm: input (f32) and output (f16) must share a storage type"
    );
}

#[test]
fn rotation_takes_one_thread_per_pair() {
    let exec = executor(&device());
    let x = tensor(1, &[5, 4, 64]);
    let table = tensor(2, &[16, 32, 2]);
    let y = tensor(3, &[5, 4, 64]);
    let desc = RopeDesc { heads: 4, head_dim: 64, rot_dim: 64, pos_base: 3, pos_addr: 0x77 };
    assert!(exec.check_rope_fits(&x, &table, &y, desc));
    let d = planned(exec.plan_rope(&x, &table, &y, desc));
    assert_eq!(d.kernel, ElementwiseKernel::Simt(Op::Rope));
    // 5 * 4 * 32 = 640 pairs.
    assert_eq!((d.groups_x, d.groups_y), (3, 1));
    assert_eq!(words(&d), block(&[5, 4, 64, 64, 3, 0], &[at(1), at(3), at(2), 0x77]));
    for rot_dim in [0, 63, 66] {
        assert_eq!(
            refusal(exec.plan_rope(&x, &table, &y, RopeDesc { rot_dim, ..desc })),
            format!("run_rope: rot_dim {rot_dim} must be even, >= 2, and <= head_dim 64")
        );
    }
    assert_eq!(
        refusal(exec.plan_rope(&x, &table, &y, RopeDesc { heads: 3, ..desc })),
        "run_rope: input length 1280 is not a multiple of heads*head_dim 192"
    );
    assert_eq!(
        refusal(exec.plan_rope(&x, &table, &y, RopeDesc { pos_base: 12, ..desc })),
        "run_rope: table length 1024 < required 1088 (pos_base 12 + 5 tokens, rot_dim 64)"
    );
    let (hx, hy) = (half(4, &[5, 4, 64]), half(5, &[5, 4, 64]));
    let d = planned(exec.plan_rope(&hx, &table, &hy, desc));
    assert_eq!(d.kernel, ElementwiseKernel::Simt(Op::RopeF16));
}

#[test]
fn scatter_bounds_its_farthest_element() {
    let exec = executor(&device());
    let x = tensor(1, &[1, 2, 64]);
    let table = tensor(2, &[16, 64]);
    let desc = RopeDesc { heads: 2, head_dim: 64, rot_dim: 32, ..RopeDesc::default() };
    // A [2, 64, 16] cache, appended at position 5.
    let scatter = RopeScatterDesc { dst_offset: 5, dst_strides: [1, 1024, 16], pos_scale: 1 };
    let dst = half(3, &[2, 64, 16]);
    assert!(exec.check_scatter_fits(&x, &table, &dst, desc, scatter));
    let d = planned(exec.plan_rope_scatter(&x, &table, &dst, desc, scatter));
    assert_eq!(d.kernel, ElementwiseKernel::Simt(Op::RopeScatterToF16));
    assert_eq!(d.groups_x, 1);
    assert_eq!(
        words(&d),
        block(&[1, 2, 64, 32, 0, 5, 1, 1024, 16, 1], &[at(1), at(3), at(2), 0])
    );
    let far = RopeScatterDesc { dst_offset: 16, ..scatter };
    assert_eq!(
        refusal(exec.plan_rope_scatter(&x, &table, &dst, desc, far)),
        "run_rope_scatter: destination access reaches element 2048 but dst has 2048"
    );
    assert_eq!(
        refusal(exec.plan_rope_scatter(&x, &table, &x, desc, scatter)),
        "run_rope_scatter: input and dst must be different tensors"
    );
    let wide = RopeScatterDesc { dst_strides: [u32::MAX; 3], ..scatter };
    assert!(exec.check_scatter_fits(&x, &table, &dst, desc, wide));
    // A refused scatter is never counted out.
    let huge = RopeDesc { heads: 1 << 31, head_dim: 1 << 31, rot_dim: 7, ..desc };
    assert!(exec.check_scatter_fits(&x, &table, &dst, huge, wide));
    assert!(exec.plan_rope_scatter(&x, &table, &dst, huge, wide).is_err());
}

#[test]
fn binary_needs_equal_counts() {
    let exec = executor(&device());
    let a = tensor(1, &[1025]);
    let b = tensor(2, &[5, 205]);
    let out = tensor(3, &[1025]);
    let beta = scalar(0.5);
    let d = planned(exec.plan_binary(&a, &b, &out, BinaryOp::AddScaled { beta }));
    assert_eq!(d.groups_x, 2);
    assert_eq!(words(&d), block(&[1025, 0, beta.bits, 0], &[at(1), at(2), at(3)]));
    let d = planned(exec.plan_binary(&a, &b, &a, BinaryOp::SiluMul));
    assert_eq!(words(&d)[..4], [1025, 1, 0, 0]);
    let short = tensor(4, &[1024]);
    assert_eq!(
        refusal(exec.plan_binary(&a, &short, &out, BinaryOp::SiluMul)),
        "run_binary: element counts differ (a 1025, b 1024, out 1025)"
    );
    let h = half(5, &[1025]);
    assert_eq!(
        refusal(exec.plan_binary(&a, &h, &out, BinaryOp::SiluMul)),
        "run_binary: b (f16) must match a (f32) storage"
    );
}

#[test]
fn copies_bound_both_sides() {
    let exec = executor(&device());
    let src = tensor(1, &[4, 6]);
    let dst = tensor(2, &[6, 4]);
    let desc = CopyDesc {
        extent: [6, 4, 1],
        src_offset: 0,
        src_strides: [1, 6, 0],
        dst_offset: 0,
        dst_strides: [4, 1, 0],
        pos_addr: 0,
        pos_scale: 0,
    };
    assert!(exec.check_copy_fits(&src, &dst, desc));
    let d = planned(exec.plan_copy_strided(&src, &dst, desc));
    assert_eq!(d.kernel, ElementwiseKernel::Simt(Op::Copy));
    assert_eq!(d.groups_x, 1);
    assert_eq!(
        words(&d)[..12],
        [6, 4, 1, 0, 1, 6, 0, 0, 4, 1, 0, 0]
    );
    let kernel = |s: &Tensor, d: &Tensor| planned(exec.plan_copy_strided(s, d, desc)).kernel;
    let (hs, hd) = (half(3, &[4, 6]), half(4, &[6, 4]));
    assert_eq!(kernel(&src, &hd), ElementwiseKernel::Simt(Op::CopyToF16));
    assert_eq!(kernel(&hs, &hd), ElementwiseKernel::Simt(Op::CopyF16));
    assert_eq!(kernel(&hs, &dst), ElementwiseKernel::Simt(Op::CopyF16ToF32));
    assert_eq!(
        refusal(exec.plan_copy_strided(&src, &src, desc)),
        "run_copy_strided: src and dst must be different tensors"
    );
    assert_eq!(
        refusal(exec.plan_copy_strided(&src, &dst, CopyDesc { extent: [6, 0, 1], ..desc })),
        "run_copy_strided: extent [6, 0, 1] has a zero axis"
    );
    assert_eq!(
        refusal(exec.plan_copy_strided(&src, &dst, CopyDesc { src_offset: 1, ..desc })),
        "run_copy_strided: source access reaches element 24 but src has 24"
    );
    assert_eq!(
        refusal(exec.plan_copy_strided(&src, &dst, CopyDesc { dst_offset: 2, ..desc })),
        "run_copy_strided: destination access reaches element 25 but dst has 24"
    );
    let still = CopyDesc { extent: [65_536, 65_536, 1], src_strides: [0; 3], dst_strides: [0; 3], ..desc };
    assert_eq!(
        refusal(exec.plan_copy_strided(&src, &dst, still)),
        "run_copy_strided: extent product exceeds u32"
    );
    let vast = CopyDesc { extent: [u32::MAX; 3], ..desc };
    assert!(!exec.check_copy_fits(&src, &dst, vast));
    assert!(exec.check_copy_fits(&src, &src, vast));
    assert!(exec.plan_copy_strided(&src, &src, vast).is_err());
}

#[test]
fn argmax_and_gather_read_their_cells() {
    let exec = executor(&device());
    let logits = tensor(1, &[1, 32_000]);
    let cell = HostU32Buffer::over(Buffer { bytes: 4, ..buffer(2) });
    let d = planned(exec.plan_argmax(&logits, &cell));
    assert_eq!((d.groups_x, d.groups_y), (1, 1));
    assert_eq!(words(&d), block(&[32_000, 0], &[at(1), at(2)]));
    let foreign = HostU32Buffer::over(Buffer { context: 8, ..buffer(2) });
    assert_eq!(
        refusal(exec.plan_argmax(&logits, &foreign)),
        "run_argmax: result buffer belongs to a different VulkanContext"
    );

    let table = half(3, &[32_000, 2048]);
    let out = tensor(4, &[2048]);
    let d = planned(exec.plan_embed_gather(cell.buffer(), &table, &out));
    assert_eq!((d.groups_x, d.groups_y), (2, 1));
    assert_eq!(words(&d), block(&[2048, 32_000, 1, 1, 0, 0], &[at(2), at(3), at(4)]));
    let ids = TokenIdBuffer::over(Buffer { bytes: 12, ..buffer(5) }, 3);
    let rows = half(6, &[3, 2048]);
    let d = planned(exec.plan_embed_gather(ids.buffer(), &table, &rows));
    assert_eq!((d.groups_x, d.groups_y), (2, 3));
    assert_eq!(words(&d)[..6], [2048, 32_000, 1, 3, 1, 0]);
    assert_eq!(
        refusal(exec.plan_embed_gather(cell.buffer(), &table, &rows)),
        "run_embed_gather: token buffer 4 B < 12 B for 3 ids"
    );
    let odd = tensor(7, &[3, 2047]);
    assert_eq!(
        refusal(exec.plan_embed_gather(ids.buffer(), &table, &odd)),
        "run_embed_gather: out shape [3, 2047] must be [embd] or [t, embd] with embd=2048"
    );
    let cube = tensor(8, &[2, 3, 4]);
    assert_eq!(
        refusal(exec.plan_embed_gather(ids.buffer(), &cube, &out)),
        "run_embed_gather: table must be [vocab, embd], got [2, 3, 4]"
    );
}

#[test]
fn cells_hold_words_at_their_start() {
    assert_eq!(cell_bytes(&device(), OpName::CreatePosBuffer).ok(), Some(4));
    let mut older = device();
    older.buffer_device_address_enabled = false;
    assert_eq!(
        refusal(cell_bytes(&older, OpName::CreatePosBuffer)),
        "create_pos_buffer: requires bufferDeviceAddress"
    );
    let pos = PosBuffer::over(buffer(1));
    assert_eq!(pos.device_address(), at(1));
    assert_eq!(pos.set(77).words, vec![77]);
    let cell = HostU32Buffer::over(buffer(2));
    assert_eq!((cell.read().buffer.handle, cell.read().words), (2, 1));
    assert_eq!(cell.set(9).words, vec![9]);
    assert_eq!(TokenIdBuffer::allocation_size(&device(), 3).ok(), Some(12));
    assert_eq!(
        refusal(TokenIdBuffer::allocation_size(&device(), 0)),
        "create_token_id_buffer: cap must be non-zero"
    );
    let ids = TokenIdBuffer::over(buffer(3), 2);
    assert_eq!(ids.cap(), 2);
    assert_eq!(ids.write(&[5, 6]).ok().unwrap().words, vec![5, 6]);
    assert_eq!(
        refusal(ids.write(&[5, 6, 7])),
        "TokenIdBuffer::write: 3 ids exceeds cap 2"
    );
}

#[test]
fn decode_attention_splits_its_cache() {
    assert_eq!(attn_decode_num_chunks(1), 8);
    assert_eq!(attn_decode_num_chunks(256), 8);
    assert_eq!(attn_decode_num_chunks(257), 9);
    assert_eq!(attn_decode_num_chunks(100_000), 32);
    let exec = executor(&device());
    let q = tensor(1, &[32, 1, 64]);
    let kt = half(2, &[4, 64, 2048]);
    let v = half(3, &[4, 2048, 64]);
    let scratch = tensor(4, &[4 * 32 * 8 * 66]);
    let out = tensor(5, &[1, 2048]);
    let scale = scalar(0.125);
    let desc = AttnDecodeDesc { kv_len: 300, scale, pos_addr: 0 };
    assert!(exec.check_attn_fits(&q, &kt, &v, &scratch, &out, desc));
    let (first, second) = planned(exec.plan_attn_decode(&q, &kt, &v, &scratch, &out, desc));
    assert_eq!(first.kernel, ElementwiseKernel::Simt(Op::AttnDecodeKv16Dh64));
    assert_eq!((first.groups_x, first.groups_y), (10, 4));
    assert_eq!(
        words(&first),
        block(&[300, 10, 8, 2048, scale.bits, 0], &[at(1), at(2), at(3), at(4), 0])
    );
    assert_eq!(second.kernel, ElementwiseKernel::Simt(Op::AttnDecodeCombine));
    assert_eq!((second.groups_x, second.groups_y), (32, 1));
    assert_eq!(words(&second), block(&[10, 8, 64, 0], &[at(4), at(5)]));
    let moving = AttnDecodeDesc { pos_addr: 0x99, ..desc };
    let (first, _) = planned(exec.plan_attn_decode(&q, &kt, &v, &scratch, &out, moving));
    assert_eq!(first.groups_x, 32);

    for kv_len in [0, 2049] {
        let desc = AttnDecodeDesc { kv_len, ..desc };
        assert_eq!(
            refusal(exec.plan_attn_decode(&q, &kt, &v, &scratch, &out, desc)),
            format!("run_attn_decode: kv_len {kv_len} out of range 1..=2048")
        );
    }
    let small = tensor(6, &[4 * 10 * 8 * 66 - 1]);
    assert_eq!(
        refusal(exec.plan_attn_decode(&q, &kt, &v, &small, &out, desc)),
        "run_attn_decode: scratch length 21119 < required 21120 (kv_heads 4 * chunks 10 * group 8 * \
         (dh+2))"
    );
    let many = tensor(7, &[36, 1, 64]);
    assert_eq!(
        refusal(exec.plan_attn_decode(&many, &kt, &v, &scratch, &many, desc)),
        "run_attn_decode: GQA group 9 unsupported (1..=8)"
    );
    let wide = half(8, &[4, 128, 2048]);
    let wide_v = half(9, &[4, 2048, 128]);
    assert_eq!(
        refusal(exec.plan_attn_decode(&q, &wide, &wide_v, &scratch, &out, desc)),
        "run_attn_decode: head dimension 128 unsupported (compiled variant: 64)"
    );
    assert_eq!(
        refusal(exec.plan_attn_decode(&q, &kt, &wide_v, &scratch, &out, desc)),
        "run_attn_decode: inconsistent caches kt [4, 64, 2048], v [4, 2048, 128]"
    );
}

fn flash_desc() -> FlashAttentionDesc {
    FlashAttentionDesc {
        kv_len: 256,
        pos_base: 0,
        scale: scalar(0.125),
        token_major_heads: None,
        out_token_major_heads: None,
    }
}

#[test]
fn flash_attention_prefers_matrix_units() {
    let exec = executor(&device());
    let q = tensor(1, &[8, 200, 64]);
    let kt = tensor(2, &[2, 64, 512]);
    let v = tensor(3, &[2, 512, 64]);
    let out = tensor(4, &[8, 200, 64]);
    let desc = flash_desc();
    assert!(exec.check_flash_fits(&q, &kt, &v, &out, desc));
    let d = planned(exec.plan_flash_attention(&q, &kt, &v, &out, desc, false));
    assert_eq!(d.kernel, ElementwiseKernel::Cm2(Cm2Op::FlashDh64));
    assert_eq!((d.groups_x, d.groups_y), (4, 8));
    assert_eq!(
        words(&d),
        block(
            &[200, 512, 256, 0, 4, desc.scale.bits, 12_800, 64, 12_800, 64],
            &[at(1), at(2), at(3), at(4)]
        )
    );
    let d = planned(exec.plan_flash_attention(&q, &kt, &v, &out, desc, true));
    assert_eq!(d.kernel, ElementwiseKernel::Simt(Op::FlashDh64));
    assert_eq!(d.groups_x, 2);
    let mut older = device();
    older.coopmat2_enabled = false;
    let d = planned(executor(&older).plan_flash_attention(&q, &kt, &v, &out, desc, false));
    assert_eq!(d.kernel, ElementwiseKernel::Simt(Op::FlashDh64));
}

#[test]
fn flash_attention_follows_token_major_rows() {
    let exec = executor(&device());
    let q = tensor(1, &[200, 8 * 64]);
    let kt = tensor(2, &[2, 64, 512]);
    let v = tensor(3, &[2, 512, 64]);
    let out = tensor(4, &[200, 8 * 64]);
    let desc = FlashAttentionDesc { token_major_heads: Some(8), ..flash_desc() };
    let d = planned(exec.plan_flash_attention(&q, &kt, &v, &out, desc, false));
    assert_eq!(words(&d)[6..10], [64, 512, 64, 512]);
    assert_eq!(d.groups_y, 8);
    let q = tensor(5, &[8, 200, 64]);
    let mixed = FlashAttentionDesc { out_token_major_heads: Some(8), ..flash_desc() };
    let d = planned(exec.plan_flash_attention(&q, &kt, &v, &out, mixed, false));
    assert_eq!(words(&d)[6..10], [12_800, 64, 64, 512]);
    let wrong = FlashAttentionDesc { out_token_major_heads: Some(4), ..flash_desc() };
    assert_eq!(
        refusal(exec.plan_flash_attention(&q, &kt, &v, &out, wrong, false)),
        "run_flash_attention: out_token_major_heads 4 != q heads 8"
    );
    assert_eq!(
        refusal(exec.plan_flash_attention(&q, &kt, &v, &out, flash_desc(), false)),
        "run_flash_attention: out shape [200, 512] must equal q shape [8, 200, 64]"
    );
    let long = FlashAttentionDesc { kv_len: 513, ..flash_desc() };
    assert_eq!(
        refusal(exec.plan_flash_attention(&q, &kt, &v, &q, long, false)),
        "run_flash_attention: kv_len 513 exceeds cache T_max 512"
    );
    let odd = tensor(6, &[7, 200, 64]);
    assert_eq!(
        refusal(exec.plan_flash_attention(&odd, &kt, &v, &odd, flash_desc(), false)),
        "run_flash_attention: H=7 must be a multiple of H_kv=2"
    );
}

#[test]
fn half_queries_need_half_caches_on_matrix_units() {
    let exec = executor(&device());
    let q = half(1, &[8, 200, 64]);
    let kt = half(2, &[2, 64, 512]);
    let v = half(3, &[2, 512, 64]);
    let d = planned(exec.plan_flash_attention(&q, &kt, &v, &q, flash_desc(), false));
    assert_eq!(d.kernel, ElementwiseKernel::Cm2(Cm2Op::FlashKv16Io16Dh64));
    assert_eq!(
        refusal(exec.plan_flash_attention(&q, &kt, &v, &q, flash_desc(), true)),
        "run_flash_attention: f16 q/out are compiled for f16 KV caches with head dimension 64 on \
         the CM2 route only (kv f16, dh 64)"
    );
    let mut older = device();
    older.coopmat2_enabled = false;
    assert_eq!(
        refusal(executor(&older).plan_flash_attention(&q, &kt, &v, &q, flash_desc(), false)),
        "run_flash_attention: f16 q/out require NV_cooperative_matrix2 support, which this device \
         lacks"
    );
    let q = tensor(4, &[8, 200, 32]);
    let kt = tensor(5, &[2, 32, 512]);
    let v = tensor(6, &[2, 512, 32]);
    assert_eq!(
        refusal(exec.plan_flash_attention(&q, &kt, &v, &q, flash_desc(), false)),
        "run_flash_attention: head dimension 32 unsupported (compiled variants: 64, 128)"
    );
}

#[test]
fn prefill_pack_counts_its_threads() {
    let exec = executor(&device());
    let desc = PrefillQkvPackDesc { heads: 8, kv_heads: 2, head_dim: 64, rot_dim: 64, pos_base: 10 };
    let qkv = half(1, &[128, 768]);
    let table = tensor(2, &[512, 64]);
    let q = half(3, &[8, 128, 64]);
    let kt = half(4, &[2, 64, 512]);
    let v = half(5, &[2, 512, 64]);
    assert!(exec.check_pack_fits(&qkv, &table, &q, &kt, &v, desc));
    let d = planned(exec.plan_prefill_qkv_pack(&qkv, &table, &q, &kt, &v, desc));
    // 128*8*32 + 128*2*32 + 128*2*16 threads.
    assert_eq!(d.groups_x, (32_768u32 + 8192 + 4096).div_ceil(256));
    assert_eq!(
        words(&d),
        block(
            &[128, 8, 2, 64, 64, 10, 768, 512, 512, 640],
            &[at(1), at(3), at(4), at(5), at(2)]
        )
    );
    let plan = |desc| refusal(exec.plan_prefill_qkv_pack(&qkv, &table, &q, &kt, &v, desc));
    assert_eq!(
        plan(PrefillQkvPackDesc { rot_dim: 7, ..desc }),
        "run_prefill_qkv_pack: invalid heads/kv_heads/dh/rot_dim (8/2/64/7)"
    );
    assert_eq!(
        plan(PrefillQkvPackDesc { heads: 4, ..desc }),
        "run_prefill_qkv_pack: qkv N 768 != H*dh + 2*H_kv*dh (512)"
    );
    assert_eq!(
        plan(PrefillQkvPackDesc { pos_base: 385, ..desc }),
        "run_prefill_qkv_pack: pos_base 385 + T 128 exceeds T_max 512"
    );
    let short = tensor(6, &[100, 64]);
    assert_eq!(
        refusal(exec.plan_prefill_qkv_pack(&qkv, &short, &q, &kt, &v, desc)),
        "run_prefill_qkv_pack: table length 6400 < required 8832 (pos_base 10 + 128 tokens, \
         rot_dim 64)"
    );
    let plain = tensor(7, &[2, 512, 64]);
    assert_eq!(
        refusal(exec.plan_prefill_qkv_pack(&qkv, &table, &q, &kt, &plain, desc)),
        "run_prefill_qkv_pack: v must be f16 storage, got f32"
    );
    let wrong = half(8, &[128, 8, 64]);
    assert_eq!(
        refusal(exec.plan_prefill_qkv_pack(&qkv, &table, &wrong, &kt, &v, desc)),
        "run_prefill_qkv_pack: q must be head-major [H=8, T=128, dh=64], got [128, 8, 64]"
    );
}

#[test]
fn chained_jobs_wait_for_what_they_read() {
    assert_eq!(gemv_chain_vcols(4096, 8192), 1);
    assert_eq!(gemv_chain_vcols(1024, 512), 1);
    assert_eq!(gemv_chain_vcols(2048, 2048), 1);
    assert_eq!(gemv_chain_vcols(2048, 2049), 2);
    let exec = executor(&device());
    let x = tensor(1, &[1, 1024]);
    let gate = half(2, &[1024, 4096]);
    let up = half(3, &[1024, 4096]);
    let down = half(4, &[4096, 1024]);
    let g = tensor(5, &[1, 4096]);
    let u = tensor(6, &[1, 4096]);
    let y = tensor(7, &[1, 1024]);
    let norm = tensor(8, &[1024]);
    let eps = scalar(1e-6);
    let alpha = scalar(1.0);
    let call = |a, b, c| MatmulCall { a, b, c, alpha, accumulate: false };
    let mut first = MatmulOp::with_epilogue(
        call(&x, &gate, &g),
        Epilogue { activation: Activation::Silu, ..Epilogue::default() },
    );
    first.normed_a = Some((&norm, eps));
    let second = MatmulOp::new(call(&x, &up, &u));
    let third = MatmulOp::with_epilogue(
        call(&g, &down, &y),
        Epilogue { binary: EpilogueBinary::AddScaled { d: &x, beta: alpha }, ..Epilogue::default() },
    );
    let jobs = [first, second, third];
    assert!(!gemv_jobs_hazard(&jobs, 1));
    assert!(gemv_jobs_hazard(&jobs, 2));
    let plan = planned(exec.plan_gemv_chain(&jobs));
    assert_eq!(plan.n_wg, 64);
    assert_eq!(plan.jobs[0].flags, 1 | 2 << 16);
    assert_eq!((plan.jobs[0].beta, plan.jobs[0].bias_ptr), (eps, at(8)));
    assert_eq!(plan.jobs[1].flags, 1 << 24);
    assert_eq!(plan.jobs[2].flags, 1 << 8);
    assert_eq!((plan.jobs[2].beta, plan.jobs[2].d_ptr), (alpha, at(1)));
    assert_eq!((plan.jobs[0].vcols, plan.jobs[2].vcols), (2, 1));
    assert_eq!(plan.table_bytes(), 256);
    let table = plan.table();
    assert_eq!(table.len(), 256);
    assert!(table[..16].iter().all(|&b| b == 0));
    assert_eq!(table[16..20], 4096u32.to_ne_bytes());
    assert_eq!(table[16 + 32..16 + 40], at(1).to_ne_bytes());
    assert_eq!(table[16 + 160 + 4..16 + 160 + 8], 4096u32.to_ne_bytes());
    let d = plan.dispatch(0x5000);
    assert_eq!((d.groups_x, d.groups_y), (64, 1));
    assert_eq!(words(&d)[4..], [3, 64]);
    assert_eq!(words(&d)[..4], block(&[], &[0x5010, 0x5000])[..]);
}

#[test]
fn chain_refuses_what_its_kernel_lacks() {
    let exec = executor(&device());
    let x = tensor(1, &[1, 1024]);
    let w = half(2, &[1024, 512]);
    let y = tensor(3, &[1, 512]);
    let alpha = scalar(1.0);
    let plain = MatmulOp::new(MatmulCall { a: &x, b: &w, c: &y, alpha, accumulate: false });
    let one = |op: MatmulOp<'_>| refusal(exec.plan_gemv_chain(&[plain, op]));
    assert_eq!(refusal(exec.plan_gemv_chain(&[])), "gemv_chain: empty job list");
    assert_eq!(refusal(exec.plan_gemv_chain(&[plain; 9])), "gemv_chain: 9 jobs exceeds max 8");
    let mut op = plain;
    op.call.accumulate = true;
    assert_eq!(one(op), "gemv_chain[1]: accumulate is not supported");
    let mut op = plain;
    op.packed_b = true;
    assert_eq!(one(op), "gemv_chain[1]: packed-B layout is not supported");
    let mut op = plain;
    op.epilogue.activation = Activation::Relu;
    assert_eq!(one(op), "gemv_chain[1]: unsupported activation Relu");
    let wide = tensor(4, &[1024, 512]);
    let mut op = plain;
    op.call.b = &wide;
    assert_eq!(one(op), "gemv_chain[1]: B must be f16 storage");
    let rows = tensor(5, &[2, 1024]);
    let outs = tensor(6, &[2, 512]);
    let mut op = plain;
    op.call.a = &rows;
    op.call.c = &outs;
    assert_eq!(one(op), "gemv_chain[1]: requires batch=1 M=1 (got B=1 M=2)");
    let bias = tensor(7, &[512]);
    let mut op = plain;
    op.epilogue.bias = Some(&bias);
    assert_eq!(one(op), "gemv_chain[1]: bias epilogue is not supported");
    let mut older = device();
    older.memory_model_device_scope_enabled = false;
    assert_eq!(
        refusal(executor(&older).plan_gemv_chain(&[plain])),
        "gemv_chain: device lacks vulkanMemoryModelDeviceScope (required for the quorum barrier)"
    );
}

#[test]
fn prefill_pack_fills_the_longest_cache() {
    let exec = executor(&device());
    let pos_base = u32::MAX - 1;
    let desc = PrefillQkvPackDesc { heads: 1, kv_heads: 1, head_dim: 4, rot_dim: 2, pos_base };
    let qkv = half(1, &[2, 12]);
    let table = tensor(2, &[65_536, 65_536, 2]);
    let q = half(3, &[1, 2, 4]);
    let kt = half(4, &[1, 4, u32::MAX]);
    let v = half(5, &[1, u32::MAX, 4]);
    assert!(exec.check_pack_fits(&qkv, &table, &q, &kt, &v, desc));
    let d = planned(exec.plan_prefill_qkv_pack(&qkv, &table, &q, &kt, &v, desc));
    assert_eq!(words(&d)[5], pos_base);
    // The table still has to reach the last position.
    let short = tensor(6, &[65_535, 65_536, 2]);
    assert_eq!(
        refusal(exec.plan_prefill_qkv_pack(&qkv, &short, &q, &kt, &v, desc)),
        "run_prefill_qkv_pack: table length 8589803520 < required 8589934592 (pos_base 4294967294 \
         + 2 tokens, rot_dim 2)"
    );
    let (kt, v) = (half(7, &[1, 4, u32::MAX - 1]), half(8, &[1, u32::MAX - 1, 4]));
    assert_eq!(
        refusal(exec.plan_prefill_qkv_pack(&qkv, &table, &q, &kt, &v, desc)),
        "run_prefill_qkv_pack: pos_base 4294967294 + T 2 exceeds T_max 4294967294"
    );
}
