//! Choosing a device.

use tensor_ash::context::DeviceKind;
use tensor_ash::device::{choose_device, DevicePreference, DeviceSummary};

fn devices() -> Vec<DeviceSummary> {
    let device = |kind, name: &str| DeviceSummary { kind, name: name.to_string() };
    vec![
        device(DeviceKind::Cpu, "llvmpipe (LLVM 17)"),
        device(DeviceKind::IntegratedGpu, "Intel UHD 770"),
        device(DeviceKind::DiscreteGpu, "NVIDIA GeForce RTX 3070"),
        device(DeviceKind::DiscreteGpu, "NVIDIA GeForce RTX 3090"),
    ]
}

fn chosen(value: &str) -> Option<usize> {
    choose_device(&DevicePreference::parse(value).ok().unwrap(), &devices())
}

#[test]
fn preferences_pick_their_device() {
    assert_eq!(chosen("auto"), Some(2));
    assert_eq!(chosen(""), Some(2));
    assert_eq!(chosen(" Discrete "), Some(2));
    assert_eq!(chosen("integrated"), Some(1));
    assert_eq!(chosen("virtual"), None);
    assert_eq!(chosen("CPU"), Some(0));
    assert_eq!(chosen("index:3"), Some(3));
    assert_eq!(chosen("index:4"), None);
    assert_eq!(chosen("name:3090"), Some(3));
    assert_eq!(chosen("rtx"), Some(2));
    assert_eq!(chosen("Radeon"), None);
    assert_eq!(choose_device(&DevicePreference::Auto, &[]), None);
}

#[test]
fn without_a_gpu_the_processor_serves() {
    let preference = DevicePreference::parse("auto").ok().unwrap();
    assert_eq!(choose_device(&preference, &devices()[..1]), Some(0));
    assert_eq!(choose_device(&preference, &devices()[..2]), Some(1));
}

#[test]
fn an_index_has_to_be_a_number() {
    for value in ["index:", "index:x", "index:-1"] {
        assert_eq!(
            DevicePreference::parse(value).err().unwrap().to_string(),
            format!("invalid ML_DEVICE '{value}', expected a number behind index:")
        );
    }
}

#[test]
fn kinds_have_names() {
    assert_eq!(DeviceKind::DiscreteGpu.as_str(), "discrete");
    assert_eq!(DeviceKind::Other.as_str(), "other");
}
