//! Storage element types.

use vstd::prelude::*;

verus! {

/// How a tensor's elements are stored.
#[derive(Copy, Clone, Debug, PartialEq, Eq, Structural)]
pub enum DType {
    F32,
    F16,
}

impl DType {
    /// Bytes per element.
    pub open spec fn bytes(self) -> u64 {
        match self {
            DType::F32 => 4,
            DType::F16 => 2,
        }
    }

    /// Bytes per element.
    pub fn size(self) -> (r: u64)
        ensures
            r == self.bytes(),
    {
        match self {
            DType::F32 => 4,
            DType::F16 => 2,
        }
    }

    /// The name that messages use.
    pub open spec fn name_of(self) -> &'static str {
        match self {
            DType::F32 => "f32",
            DType::F16 => "f16",
        }
    }

    /// The name that messages use.
    #[verifier::when_used_as_spec(name_of)]
    pub fn name(self) -> (r: &'static str)
        ensures
            r == self.name_of(),
    {
        match self {
            DType::F32 => "f32",
            DType::F16 => "f16",
        }
    }
}

/// An IEEE 754 binary32 value, carried by its bit pattern: scale factors pass
/// through the planners to the shaders without being computed with.
#[derive(Copy, Clone, Debug, PartialEq, Eq, Structural)]
pub struct Scalar {
    pub bits: u32,
}

impl Scalar {
    /// Positive zero.
    pub open spec fn zero_value() -> Scalar {
        Scalar { bits: 0 }
    }

    /// The value one, which has this bit pattern and no other.
    pub open spec fn one_value() -> Scalar {
        Scalar { bits: 0x3F80_0000 }
    }

    /// Positive zero.
    #[verifier::when_used_as_spec(zero_value)]
    pub fn zero() -> (r: Scalar)
        ensures
            r == Self::zero_value(),
    {
        Scalar { bits: 0 }
    }

    /// The value one.
    #[verifier::when_used_as_spec(one_value)]
    pub fn one() -> (r: Scalar)
        ensures
            r == Self::one_value(),
    {
        Scalar { bits: 0x3F80_0000 }
    }

    /// Whether this is the value one.
    pub fn is_one(self) -> (r: bool)
        ensures
            r == (self == Scalar::one()),
    {
        self.bits == 0x3F80_0000
    }
}

} // verus!
