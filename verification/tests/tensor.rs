//! Shapes, element counts and allocations.

use tensor_ash::context::{DeviceKind, VulkanContext};
use tensor_ash::dtype::DType;
use tensor_ash::tensor::{checked_next_multiple_of, Buffer, Tensor};

fn device() -> VulkanContext {
    VulkanContext {
        id: 1,
        device_kind: DeviceKind::DiscreteGpu,
        vendor_id: 0x10de,
        device_id: 0x2484,
        driver_version: 595,
        buffer_device_address_enabled: true,
        f16_storage_enabled: false,
        coopmat_enabled: false,
        coopmat2_enabled: false,
        memory_model_device_scope_enabled: false,
        atomic_float_add_enabled: false,
        timestamps_supported: true,
        timestamp_valid_bits: 64,
        workgroup_shared_budget: 49_152,
        max_groups_x: 65_535,
        max_groups_y: 65_535,
        max_groups_z: 65_535,
    }
}

fn buffer(handle: u64, bytes: u64) -> Buffer {
    Buffer { context: 1, handle, address: 0x1000 * handle, bytes }
}

#[test]
fn checked_numel_rejects_empty_or_zero_shapes() {
    assert!(Tensor::numel_checked(&[]).is_err());
    assert!(Tensor::numel_checked(&[4, 0]).is_err());
}

#[test]
fn checked_numel_reports_overflow() {
    let err = Tensor::numel_checked(&[u32::MAX, u32::MAX, u32::MAX])
        .unwrap_err()
        .to_string();

    assert!(err.contains("overflows"));
}

#[test]
fn numel_matches_shape_product() {
    assert_eq!(Tensor::numel(&[1]), 1);
    assert_eq!(Tensor::numel(&[2, 3]), 6);
    assert_eq!(Tensor::numel(&[4, 5, 6]), 120);
}

#[test]
fn checked_numel_names_the_first_bad_dimension() {
    assert_eq!(Tensor::numel_checked(&[4, 5, 6]).unwrap(), 120);
    assert_eq!(
        Tensor::numel_checked(&[]).unwrap_err().to_string(),
        "tensor shape must have at least one dimension"
    );
    assert_eq!(
        Tensor::numel_checked(&[4, 7, 0, 0]).unwrap_err().to_string(),
        "tensor dimension 2 must be non-zero"
    );
    // The count overflows before the zero is reached.
    assert_eq!(
        Tensor::numel_checked(&[u32::MAX, u32::MAX, u32::MAX, 0])
            .unwrap_err()
            .to_string(),
        "tensor element count overflows u64"
    );
    assert_eq!(
        Tensor::numel_checked(&[u32::MAX, 0, u32::MAX, u32::MAX])
            .unwrap_err()
            .to_string(),
        "tensor dimension 1 must be non-zero"
    );
}

#[test]
fn allocations_are_rounded_to_sixteen_bytes() {
    assert_eq!(Tensor::allocation_size(&[1], DType::F32).unwrap(), 16);
    assert_eq!(Tensor::allocation_size(&[4], DType::F32).unwrap(), 16);
    assert_eq!(Tensor::allocation_size(&[5], DType::F32).unwrap(), 32);
    assert_eq!(Tensor::allocation_size(&[9], DType::F16).unwrap(), 32);
    assert_eq!(
        Tensor::allocation_size(&[1 << 31, 1 << 31, 2], DType::F32)
            .unwrap_err()
            .to_string(),
        "tensor byte size overflows u64"
    );
}

#[test]
fn f16_tensors_need_f16_storage() {
    let mut ctx = device();
    let err = Tensor::allocation_size_f16(&ctx, &[8]).unwrap_err();
    assert_eq!(
        err.to_string(),
        "device does not support f16 storage (shaderFloat16 + storageBuffer16BitAccess)"
    );
    assert!(Tensor::uninit_device_f16(&ctx, &[8], buffer(1, 16)).is_err());
    ctx.f16_storage_enabled = true;
    assert_eq!(Tensor::allocation_size_f16(&ctx, &[9]).unwrap(), 32);
    let t = Tensor::uninit_device_f16(&ctx, &[9], buffer(1, 32)).ok().unwrap();
    assert_eq!(t.dtype(), DType::F16);
    // Nine halves take 18 bytes; the next multiple of sixteen is 32.
    assert_eq!(t.size_bytes(), 32);
}

#[test]
fn tensor_reports_what_it_was_made_of() {
    let t = Tensor::uninit_device(&[2, 3, 4], buffer(7, 96)).ok().unwrap();
    assert_eq!(t.shape(), &[2, 3, 4]);
    assert_eq!(t.rank(), 3);
    assert_eq!(t.len(), 24);
    assert!(!t.is_empty());
    assert_eq!(t.dtype(), DType::F32);
    assert_eq!(t.raw_buffer(), 7);
    assert_eq!(t.device_address(), 0x7000);
    assert_eq!(t.size_bytes(), 96);
    assert_eq!(t.as_3d().unwrap(), (2, 3, 4));
    assert!(t.belongs_to(&device()));
    let mut other = device();
    other.id = 2;
    assert!(!t.belongs_to(&other));
    let flat = Tensor::uninit_device(&[24], buffer(8, 96)).ok().unwrap();
    assert_eq!(
        flat.as_3d().unwrap_err().to_string(),
        "tensor rank 1 not supported by matmul (must be 2 or 3)"
    );
    assert!(Tensor::uninit_device(&[3, 0], buffer(9, 0)).is_err());
}

#[test]
fn multiples_round_up_and_overflow_is_told() {
    assert_eq!(checked_next_multiple_of(0, 16), Some(0));
    assert_eq!(checked_next_multiple_of(1, 16), Some(16));
    assert_eq!(checked_next_multiple_of(32, 16), Some(32));
    assert_eq!(checked_next_multiple_of(u64::MAX, 16), None);
    assert_eq!(checked_next_multiple_of(u64::MAX, 1), Some(u64::MAX));
}
