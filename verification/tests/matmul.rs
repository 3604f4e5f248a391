//! Shape resolution and what is fused into a matmul.

use tensor_ash::dtype::{DType, Scalar};
use tensor_ash::matmul::api::{
    Activation, Epilogue, EpilogueBinary, MatmulCall, MatmulOp, MatmulStore, MatmulStoreDesc,
};
use tensor_ash::matmul::resolution::{
    checked_flops, checked_product, total_flops, MatrixShape, ResolvedMatmul, ResolvedMatmulBatch,
};
use tensor_ash::tensor::{Buffer, Tensor};

fn scalar(value: f32) -> Scalar {
    Scalar { bits: value.to_bits() }
}

fn tensor(handle: u64, shape: &[u32]) -> Tensor {
    let bytes = Tensor::allocation_size(shape, DType::F32).ok().unwrap();
    let buffer = Buffer { context: 1, handle, address: 0x1000 * handle, bytes };
    Tensor::uninit_device(shape, buffer).ok().unwrap()
}

fn call<'a>(a: &'a Tensor, b: &'a Tensor, c: &'a Tensor) -> MatmulCall<'a> {
    MatmulCall { a, b, c, alpha: scalar(1.0), accumulate: false }
}

#[test]
fn resolves_rank2_matmul() {
    let dims = ResolvedMatmul::from_shapes(&[2, 3], &[3, 4], &[2, 4]).unwrap();
    assert_eq!(
        dims,
        ResolvedMatmul {
            m: 2,
            n: 4,
            k: 3,
            batch: 1,
            batch_stride_a: 0,
            batch_stride_b: 0,
            batch_stride_c: 0,
            total_flops: 48,
            b_f16: false,
            a_f16: false,
            packed_b: false,
        }
    );
}

#[test]
fn resolves_batched_matmul() {
    let dims = ResolvedMatmul::from_shapes(&[5, 2, 3], &[5, 3, 4], &[5, 2, 4]).unwrap();
    assert_eq!(dims.batch, 5);
    assert_eq!(
        (
            dims.batch_stride_a,
            dims.batch_stride_b,
            dims.batch_stride_c
        ),
        (6, 12, 8)
    );
    assert_eq!(dims.total_flops, 240);
}

#[test]
fn broadcasts_either_or_both_inputs_to_output_batch() {
    let a = ResolvedMatmul::from_shapes(&[1, 2, 3], &[7, 3, 4], &[7, 2, 4]).unwrap();
    let b = ResolvedMatmul::from_shapes(&[7, 2, 3], &[1, 3, 4], &[7, 2, 4]).unwrap();
    let both = ResolvedMatmul::from_shapes(&[1, 2, 3], &[1, 3, 4], &[7, 2, 4]).unwrap();

    assert_eq!((a.batch_stride_a, a.batch_stride_b), (0, 12));
    assert_eq!((b.batch_stride_a, b.batch_stride_b), (6, 0));
    assert_eq!((both.batch_stride_a, both.batch_stride_b), (0, 0));
    assert_eq!(both.batch_stride_c, 8);
    assert_eq!(both.total_flops, 336);
}

#[test]
fn rejects_mismatched_inner_dimension() {
    let err = ResolvedMatmul::from_shapes(&[2, 3], &[5, 4], &[2, 4])
        .unwrap_err()
        .to_string();
    assert!(err.contains("A.K=3"));
    assert!(err.contains("B.K=5"));
}

#[test]
fn rejects_output_batch_that_cannot_hold_inputs() {
    let err = ResolvedMatmul::from_shapes(&[7, 2, 3], &[7, 3, 4], &[1, 2, 4])
        .unwrap_err()
        .to_string();
    assert!(err.contains("incompatible batch dims"));
    assert!(err.contains("A.B=7"));
}

#[test]
fn rejects_zero_dimensions() {
    let err = MatrixShape::from_tensor_shape(&[0, 3])
        .unwrap_err()
        .to_string();
    assert!(err.contains("non-zero"));
}

#[test]
fn rejects_batch_stride_overflow() {
    let err = ResolvedMatmul::from_shapes(
        &[2, u32::MAX, u32::MAX],
        &[1, u32::MAX, 1],
        &[2, u32::MAX, 1],
    )
    .unwrap_err()
    .to_string();
    assert!(err.contains("A batch stride"));
    assert!(err.contains("overflows"));
}

#[test]
fn accepts_the_largest_shader_addressable_layout() {
    ResolvedMatmul::from_shapes(&[65_536, 65_536], &[65_536, 1], &[65_536, 1]).unwrap();
    ResolvedMatmul::from_shapes(&[2, 32_768, 65_536], &[65_536, 1], &[2, 32_768, 1]).unwrap();
}

#[test]
fn rejects_layouts_beyond_shader_u32_indexing() {
    type LayoutCase<'a> = (&'a str, &'a [u32], &'a [u32], &'a [u32]);
    let cases: [LayoutCase<'_>; 6] = [
        ("A", &[65_537, 65_536], &[65_536, 1], &[65_537, 1]),
        ("B", &[1, 65_537], &[65_537, 65_536], &[1, 65_536]),
        ("C", &[65_537, 1], &[1, 65_536], &[65_537, 65_536]),
        ("A", &[3, 32_768, 65_536], &[65_536, 1], &[3, 32_768, 1]),
        ("B", &[3, 1, 32_768], &[3, 32_768, 65_536], &[3, 1, 65_536]),
        ("C", &[3, 32_768, 1], &[1, 65_536], &[3, 32_768, 65_536]),
    ];

    for (label, a, b, c) in cases {
        let err = ResolvedMatmul::from_shapes(a, b, c)
            .unwrap_err()
            .to_string();
        assert!(err.contains(label), "unexpected error: {err}");
        assert!(
            err.contains("shader u32 indexing"),
            "unexpected error: {err}"
        );
    }
}

#[test]
fn rejects_flop_count_overflow() {
    let err = ResolvedMatmul::from_shapes(&[1, u32::MAX], &[u32::MAX, 1], &[u32::MAX, 1, 1])
        .unwrap_err()
        .to_string();
    assert!(err.contains("FLOP count overflows"));
}

#[test]
fn validates_bias_shape_not_just_element_count() {
    let dims = ResolvedMatmul::from_shapes(&[3, 2, 4], &[3, 4, 5], &[3, 2, 5]).unwrap();
    assert!(dims.validate_bias_shape(&[5]).is_ok());
    assert!(dims.validate_bias_shape(&[3, 5]).is_ok());

    let err = dims.validate_bias_shape(&[5, 3]).unwrap_err().to_string();
    assert!(err.contains("bias shape"));
}

#[test]
fn builds_push_constants_from_resolved_shape_and_call_flags() {
    let dims = ResolvedMatmul::from_shapes(&[2, 2, 3], &[1, 3, 4], &[2, 2, 4]).unwrap();
    let pc = dims.push_constants(scalar(0.5), true, 0xAA00, 0xBB00, 0xCC00);

    assert_eq!((pc.m, pc.n, pc.k), (2, 4, 3));
    assert_eq!(
        (pc.batch_stride_a, pc.batch_stride_b, pc.batch_stride_c),
        (6, 0, 8)
    );
    assert_eq!(pc.flags, 1);
    assert_eq!(f32::from_bits(pc.alpha.bits), 0.5);
    assert_eq!((pc.a_ptr, pc.b_ptr, pc.c_ptr), (0xAA00, 0xBB00, 0xCC00));
}

#[test]
fn split_push_constants_carry_the_count_in_the_upper_half() {
    let dims = ResolvedMatmul::from_shapes(&[2, 3], &[3, 4], &[2, 4]).unwrap();
    let pc = dims.split_k_push_constants(scalar(2.0), 1, 2, 3, 0xFFFF);
    assert_eq!(pc.flags, 0xFFFF_0000);
    assert_eq!(dims.split_k_push_constants(scalar(2.0), 1, 2, 3, 8).flags, 8 << 16);
    assert_eq!(pc.bias_ptr, 0);
}

#[test]
fn resolution_reports_the_first_failed_check() {
    let text = |a: &[u32], b: &[u32], c: &[u32]| {
        ResolvedMatmul::from_shapes(a, b, c).unwrap_err().to_string()
    };
    assert_eq!(
        text(&[2, 3], &[5, 4], &[9, 9]),
        "matmul shape mismatch: A.K=3 vs B.K=5"
    );
    assert_eq!(
        text(&[2, 3], &[3, 4], &[9, 9]),
        "matmul shape mismatch: A.M=2 vs C.M=9"
    );
    assert_eq!(
        text(&[2, 3], &[3, 4], &[2, 9]),
        "matmul shape mismatch: B.N=4 vs C.N=9"
    );
    assert_eq!(
        text(&[2, 2, 3], &[3, 3, 4], &[5, 2, 4]),
        "matmul incompatible batch dims: A.B=2 cannot broadcast to C.B=5"
    );
    assert_eq!(
        text(&[1, 2, 3], &[3, 3, 4], &[5, 2, 4]),
        "matmul incompatible batch dims: B.B=3 cannot broadcast to C.B=5"
    );
    assert_eq!(
        text(&[1], &[3, 4], &[2, 4]),
        "tensor rank 1 not supported by matmul (must be 2 or 3)"
    );
    assert_eq!(
        text(&[2, 3], &[0, 3, 4], &[2, 4]),
        "matmul dimensions must be non-zero, got B=0 rows=3 cols=4"
    );
    assert_eq!(
        text(&[65_537, 65_536], &[65_536, 1], &[65_537, 1]),
        "A layout exceeds shader u32 indexing: B=1 rows=65537 cols=65536"
    );
}

#[test]
fn bias_shape_message_lists_what_fits() {
    let dims = ResolvedMatmul::from_shapes(&[3, 2, 4], &[3, 4, 5], &[3, 2, 5]).unwrap();
    assert_eq!(
        dims.validate_bias_shape(&[5, 3]).unwrap_err().to_string(),
        "epilogue bias shape [5, 3], expected [5] or [3, 5]"
    );
    assert_eq!(
        dims.validate_bias_shape(&[]).unwrap_err().to_string(),
        "epilogue bias shape [], expected [5] or [3, 5]"
    );
}

#[test]
fn products_and_flops_are_checked() {
    assert_eq!(checked_product(&[]), Some(1));
    assert_eq!(checked_product(&[3, 5, 7]), Some(105));
    assert_eq!(checked_product(&[u64::MAX, 2, 0]), None);
    assert_eq!(checked_product(&[0, u64::MAX, 2]), Some(0));
    assert_eq!(checked_flops(5, 2, 4, 3).unwrap(), 240);
    assert!(checked_flops(u32::MAX, u32::MAX, u32::MAX, 1).is_err());
}

#[test]
fn total_work_is_summed_and_checked() {
    let one = ResolvedMatmul::from_shapes(&[2, 3], &[3, 4], &[2, 4]).unwrap();
    assert_eq!(total_flops(&[]).unwrap(), 0);
    assert_eq!(total_flops(&[one, one, one]).unwrap(), 144);
    let huge = ResolvedMatmul { total_flops: u64::MAX, ..one };
    assert_eq!(
        total_flops(&[one, huge]).unwrap_err().to_string(),
        "total FLOP count overflows u64"
    );
}

#[test]
fn batches_resolve_in_order_or_report_the_first_failure() {
    let a = tensor(1, &[2, 3]);
    let b = tensor(2, &[3, 4]);
    let c = tensor(3, &[2, 4]);
    let bad = tensor(4, &[9, 9]);
    let good = MatmulOp::new(call(&a, &b, &c));
    let wrong = MatmulOp::new(call(&a, &b, &bad));
    let one = ResolvedMatmulBatch::from_ops(&[good]).ok().unwrap();
    assert_eq!(one.as_slice().len(), 1);
    let many = ResolvedMatmulBatch::from_ops(&[good, good]).ok().unwrap();
    assert_eq!(many.as_slice()[1].total_flops, 48);
    assert!(ResolvedMatmulBatch::from_ops(&[good, wrong, good]).is_err());
    assert_eq!(ResolvedMatmulBatch::from_ops(&[]).ok().unwrap().as_slice().len(), 0);
}

#[test]
fn epilogue_operands_have_to_match_the_output() {
    let a = tensor(1, &[2, 3]);
    let b = tensor(2, &[3, 4]);
    let c = tensor(3, &[2, 4]);
    let bias = tensor(4, &[4]);
    let d = tensor(5, &[2, 4]);
    let odd = tensor(6, &[4, 2]);
    let good = Epilogue {
        bias: Some(&bias),
        activation: Activation::Silu,
        binary: EpilogueBinary::Mul { d: &d },
    };
    assert!(!good.is_none());
    let op = MatmulOp::with_epilogue(call(&a, &b, &c), good);
    assert!(ResolvedMatmul::from_op(&op).is_ok());
    let key = good.key();
    assert_eq!((key.bias, key.activation, key.binary), (true, 2, 2));
    let wrong = Epilogue { binary: EpilogueBinary::AddScaled { d: &odd, beta: scalar(0.5) }, ..good };
    assert_eq!(wrong.key().binary, 1);
    assert_eq!(f32::from_bits(wrong.beta().bits), 0.5);
    let op = MatmulOp::with_epilogue(call(&a, &b, &c), wrong);
    assert_eq!(
        ResolvedMatmul::from_op(&op).unwrap_err().to_string(),
        "epilogue D shape [4, 2] must equal C shape [2, 4]"
    );
    assert!(Epilogue::default().is_none());
    assert_eq!(Epilogue::default().beta().bits, 0);
}

#[test]
fn storage_types_are_resolved_from_the_tensors() {
    let buffer = |handle| Buffer { context: 1, handle, address: 0, bytes: 4096 };
    let ctx = tensor_ash::context::VulkanContext {
        id: 1,
        device_kind: tensor_ash::context::DeviceKind::DiscreteGpu,
        vendor_id: 0,
        device_id: 0,
        driver_version: 0,
        buffer_device_address_enabled: true,
        f16_storage_enabled: true,
        coopmat_enabled: false,
        coopmat2_enabled: false,
        memory_model_device_scope_enabled: false,
        atomic_float_add_enabled: false,
        timestamps_supported: false,
        timestamp_valid_bits: 0,
        workgroup_shared_budget: 49_152,
        max_groups_x: 65_535,
        max_groups_y: 65_535,
        max_groups_z: 65_535,
    };
    let a = tensor(1, &[1, 64]);
    let b = Tensor::uninit_device_f16(&ctx, &[64, 32], buffer(2)).ok().unwrap();
    let c = tensor(3, &[1, 32]);
    assert_eq!(b.dtype(), DType::F16);
    let mut op = MatmulOp::new(call(&a, &b, &c));
    op.packed_b = true;
    let dims = ResolvedMatmul::from_op(&op).unwrap();
    assert_eq!((dims.a_f16, dims.b_f16, dims.packed_b), (false, true, true));
}

#[test]
fn fused_norm_and_store_exclude_what_they_cannot_carry() {
    let a = tensor(1, &[1, 64]);
    let b = tensor(2, &[64, 32]);
    let c = tensor(3, &[1, 32]);
    let weight = tensor(4, &[64]);
    let bias = tensor(5, &[32]);
    let table = tensor(6, &[10, 4, 2]);
    let cache = tensor(7, &[4, 8, 16]);
    let plain = MatmulOp::new(call(&a, &b, &c));
    let normed = plain.with_normed_a(&weight, scalar(1e-5));
    assert!(ResolvedMatmul::from_op(&normed).is_ok());
    let mut clash = normed;
    clash.epilogue.bias = Some(&bias);
    assert_eq!(
        ResolvedMatmul::from_op(&clash).unwrap_err().to_string(),
        "normed-A cannot combine with an epilogue bias or the AddScaled binary"
    );

    let desc = MatmulStoreDesc {
        head_dim: 8,
        pos_base: 3,
        pos_scale: 1,
        stride_head: 128,
        stride_dim: 16,
        pos_addr: 0,
    };
    let store = plain.with_store_rope_scatter(&table, &cache, desc);
    assert!(ResolvedMatmul::from_op(&store).is_ok());
    assert_eq!(store.store.mode(), 3);
    assert_eq!(store.store.desc(), desc);
    assert_eq!(plain.with_store_rope(&table, desc).store.mode(), 1);
    assert_eq!(plain.with_store_scatter(&cache, desc).store.mode(), 2);
    assert_eq!(MatmulStore::default().mode(), 0);
    assert!(MatmulStore::default().is_none());

    let mut adding = store;
    adding.call.accumulate = true;
    assert_eq!(
        ResolvedMatmul::from_op(&adding).unwrap_err().to_string(),
        "a fused store cannot combine with accumulate"
    );
    let mut fused = store;
    fused.epilogue.activation = Activation::Relu;
    assert_eq!(
        ResolvedMatmul::from_op(&fused).unwrap_err().to_string(),
        "a fused store cannot combine with an epilogue"
    );
    let odd = plain.with_store_rope(&table, MatmulStoreDesc { head_dim: 6, ..desc });
    assert_eq!(
        ResolvedMatmul::from_op(&odd).unwrap_err().to_string(),
        "fused store head_dim 6 must be even and divide N=32"
    );
    let late = plain.with_store_rope(&table, MatmulStoreDesc { pos_base: 10, ..desc });
    assert_eq!(
        ResolvedMatmul::from_op(&late).unwrap_err().to_string(),
        "fused store table length 80 < required 88"
    );
    // The last head's last lane lies at 3 + 3 * 128 + 7 * 16 = 499 of 512.
    let far = plain.with_store_scatter(&cache, MatmulStoreDesc { pos_base: 16, ..desc });
    assert_eq!(
        ResolvedMatmul::from_op(&far).unwrap_err().to_string(),
        "fused store reaches element past dst length 512"
    );
}

#[test]
fn every_shape_helper_agrees_on_strides() {
    let shape = MatrixShape::from_tensor_shape(&[5, 2, 3]).unwrap();
    assert_eq!((shape.batch, shape.rows, shape.cols), (5, 2, 3));
    let flat = MatrixShape::from_tensor_shape(&[2, 3]).unwrap();
    assert_eq!(flat.batch, 1);
    assert_eq!(shape.batch_stride(tensor_ash::error::Role::A).unwrap(), 6);
    assert_eq!(flat.batch_stride(tensor_ash::error::Role::A).unwrap(), 0);
}
