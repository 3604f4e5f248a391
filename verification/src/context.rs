//! What the planners need to know of a device.

use vstd::prelude::*;

verus! {

/// The kind of a physical device.
#[derive(Copy, Clone, Debug, PartialEq, Eq, Structural)]
pub enum DeviceKind {
    DiscreteGpu,
    IntegratedGpu,
    VirtualGpu,
    Cpu,
    Other,
}

impl DeviceKind {
    /// The name that reports use.
    pub open spec fn name_of(self) -> &'static str {
        match self {
            DeviceKind::DiscreteGpu => "discrete",
            DeviceKind::IntegratedGpu => "integrated",
            DeviceKind::VirtualGpu => "virtual",
            DeviceKind::Cpu => "cpu",
            DeviceKind::Other => "other",
        }
    }

    /// The name that reports use.
    pub fn as_str(self) -> (r: &'static str)
        ensures
            r == self.name_of(),
    {
        match self {
            DeviceKind::DiscreteGpu => "discrete",
            DeviceKind::IntegratedGpu => "integrated",
            DeviceKind::VirtualGpu => "virtual",
            DeviceKind::Cpu => "cpu",
            DeviceKind::Other => "other",
        }
    }
}

/// An opened device: its identity and the features and limits that decide
/// what may be dispatched on it.
#[derive(Copy, Clone, Debug, PartialEq, Eq, Structural)]
pub struct VulkanContext {
    /// Tells this context apart from every other one of the process.
    pub id: u64,
    pub device_kind: DeviceKind,
    pub vendor_id: u32,
    pub device_id: u32,
    pub driver_version: u32,
    /// Shaders may dereference buffer addresses.
    pub buffer_device_address_enabled: bool,
    /// Shaders may hold tensors as 16-bit floats.
    pub f16_storage_enabled: bool,
    /// Cooperative matrices are available.
    pub coopmat_enabled: bool,
    /// The second generation of cooperative matrices is available.
    pub coopmat2_enabled: bool,
    /// Atomics may synchronize across the whole device.
    pub memory_model_device_scope_enabled: bool,
    /// 32-bit float atomic adds on buffers are available.
    pub atomic_float_add_enabled: bool,
    /// Timestamp queries are available.
    pub timestamps_supported: bool,
    /// How many low bits of a timestamp count; 0 and 64 both mean all.
    pub timestamp_valid_bits: u32,
    /// Bytes of workgroup memory that a shader may declare.
    pub workgroup_shared_budget: u32,
    /// Most workgroups per dispatch, along each axis.
    pub max_groups_x: u32,
    pub max_groups_y: u32,
    pub max_groups_z: u32,
}

impl VulkanContext {
    /// Whether a grid stays within the device's dispatch limits.
    pub open spec fn grid_fits(self, x: int, y: int, z: int) -> bool {
        x <= self.max_groups_x && y <= self.max_groups_y && z <= self.max_groups_z
    }
}

/// The ticks between two timestamps of a counter with the given number of
/// valid bits: the counter wraps at that width.
pub open spec fn ticks_between(start: u64, end: u64, valid_bits: u32) -> int {
    let width = if valid_bits == 0 || valid_bits >= 64 { 64nat } else { valid_bits as nat };
    (end - start) % (vstd::arithmetic::power2::pow2(width) as int)
}

/// The ticks between two timestamps of a counter with the given number of
/// valid bits.
pub fn timestamp_delta(start: u64, end: u64, valid_bits: u32) -> (r: u64)
    ensures
        r == ticks_between(start, end, valid_bits),
{
    let diff: u64 = end.wrapping_sub(start);
    proof {
        vstd::arithmetic::power2::lemma2_to64();
        vstd::arithmetic::power2::lemma2_to64_rest();
        let d = end - start;
        let full = 0x1_0000_0000_0000_0000int;
        assert(diff == d % full) by {
            if d >= 0 {
                vstd::arithmetic::div_mod::lemma_small_mod(d as nat, full as nat);
            } else {
                vstd::arithmetic::div_mod::lemma_fundamental_div_mod_converse(d, full, -1, d + full);
            }
        }
    }
    if valid_bits == 0 || valid_bits >= 64 {
        diff
    } else {
        proof {
            let d = end - start;
            let full = 0x1_0000_0000_0000_0000int;
            let part = vstd::arithmetic::power2::pow2(valid_bits as nat) as int;
            let rest = vstd::arithmetic::power2::pow2((64 - valid_bits) as nat) as int;
            vstd::arithmetic::power2::lemma2_to64();
            vstd::arithmetic::power2::lemma2_to64_rest();
            vstd::arithmetic::power2::lemma_pow2_adds(valid_bits as nat, (64 - valid_bits) as nat);
            vstd::arithmetic::power2::lemma_pow2_pos(valid_bits as nat);
            vstd::arithmetic::power2::lemma_pow2_pos((64 - valid_bits) as nat);
            vstd::arithmetic::power2::lemma_pow2_strictly_increases(valid_bits as nat, 64);
            vstd::arithmetic::div_mod::lemma_mod_mod(d, part, rest);
            vstd::bits::lemma_u64_shl_is_mul(1, valid_bits as u64);
        }
        diff % (1u64 << valid_bits)
    }
}

} // verus!
