//! Matrix multiplication requests.

use crate::dtype::Scalar;
use crate::pipeline::abi::EpilogueKey;
use crate::tensor::Tensor;
use vstd::prelude::*;

verus! {

/// One GEMM problem: `C <- alpha * A @ B  (+ C if accumulate)`.
#[derive(Copy, Clone)]
pub struct MatmulCall<'a> {
    pub a: &'a Tensor,
    pub b: &'a Tensor,
    pub c: &'a Tensor,
    pub alpha: Scalar,
    pub accumulate: bool,
}

/// Elementwise activation applied in the fused GEMM epilogue.
#[derive(Copy, Clone, Debug, PartialEq, Eq, Structural)]
pub enum Activation {
    Absent,
    Relu,
    /// `x * sigmoid(x)`.
    Silu,
    /// GELU, approximated by tanh.
    Gelu,
}

impl Default for Activation {
    fn default() -> (r: Self)
        ensures
            r == Activation::Absent,
    {
        Activation::Absent
    }
}

impl Activation {
    /// Shader `ACTIVATION` value.
    pub open spec fn code_of(self) -> u32 {
        match self {
            Activation::Absent => 0,
            Activation::Relu => 1,
            Activation::Silu => 2,
            Activation::Gelu => 3,
        }
    }

    /// Shader `ACTIVATION` value.
    pub fn code(self) -> (r: u32)
        ensures
            r == self.code_of(),
    {
        match self {
            Activation::Absent => 0,
            Activation::Relu => 1,
            Activation::Silu => 2,
            Activation::Gelu => 3,
        }
    }
}

/// Optional second elementwise operand applied after the activation. `d`
/// must have exactly C's shape; it is indexed with C's layout.
#[derive(Copy, Clone)]
pub enum EpilogueBinary<'a> {
    Absent,
    /// `out = act_result + beta * d`: residual connections.
    AddScaled { d: &'a Tensor, beta: Scalar },
    /// `out = act_result * d`: gating.
    Mul { d: &'a Tensor },
}

impl<'a> Default for EpilogueBinary<'a> {
    fn default() -> (r: Self)
        ensures
            r == EpilogueBinary::<'a>::Absent,
    {
        EpilogueBinary::Absent
    }
}

/// Fused epilogue applied while the output tile is still in registers, in
/// order: `+bias`, activation, binary operation with `D`. `bias` may be
/// broadcast `[N]` or batched `[B, N]`.
///
/// Needs a kernel that addresses its operands by pointer.
#[derive(Copy, Clone)]
pub struct Epilogue<'a> {
    /// A shared length-N vector or B-by-N rows added before activation.
    pub bias: Option<&'a Tensor>,
    pub activation: Activation,
    pub binary: EpilogueBinary<'a>,
}

impl<'a> Default for Epilogue<'a> {
    fn default() -> (r: Self)
        ensures
            r == Epilogue::<'a>::plain(),
    {
        Epilogue { bias: None, activation: Activation::Absent, binary: EpilogueBinary::Absent }
    }
}

impl<'a> Epilogue<'a> {
    /// The epilogue that does nothing.
    pub open spec fn plain() -> Self {
        Epilogue { bias: None, activation: Activation::Absent, binary: EpilogueBinary::Absent }
    }

    /// Whether this epilogue does nothing.
    pub fn is_none(&self) -> (r: bool)
        ensures
            r == (*self == Self::plain()),
    {
        self.bias.is_none() && self.activation == Activation::Absent && matches!(
            self.binary,
            EpilogueBinary::Absent
        )
    }

    /// The specialization that this epilogue asks of a kernel.
    pub open spec fn key_of(self) -> EpilogueKey {
        EpilogueKey {
            bias: self.bias is Some,
            activation: self.activation.code_of(),
            binary: match self.binary {
                EpilogueBinary::Absent => 0,
                EpilogueBinary::AddScaled { .. } => 1,
                EpilogueBinary::Mul { .. } => 2,
            },
            store_mode: 0,
            store_f16: false,
        }
    }

    /// The specialization that this epilogue asks of a kernel.
    pub fn key(&self) -> (r: EpilogueKey)
        ensures
            r == self.key_of(),
    {
        EpilogueKey {
            bias: self.bias.is_some(),
            activation: self.activation.code(),
            binary: match self.binary {
                EpilogueBinary::Absent => 0,
                EpilogueBinary::AddScaled { .. } => 1,
                EpilogueBinary::Mul { .. } => 2,
            },
            store_mode: 0,
            store_f16: false,
        }
    }

    /// The second elementwise operand.
    pub open spec fn d_of(self) -> Option<&'a Tensor> {
        match self.binary {
            EpilogueBinary::Absent => None,
            EpilogueBinary::AddScaled { d, .. } => Some(d),
            EpilogueBinary::Mul { d } => Some(d),
        }
    }

    /// The second elementwise operand.
    pub fn d_tensor(&self) -> (r: Option<&'a Tensor>)
        ensures
            r == self.d_of(),
    {
        match self.binary {
            EpilogueBinary::Absent => None,
            EpilogueBinary::AddScaled { d, .. } => Some(d),
            EpilogueBinary::Mul { d } => Some(d),
        }
    }

    /// The scale of the second operand; zero where it has none.
    pub open spec fn beta_of(self) -> Scalar {
        match self.binary {
            EpilogueBinary::AddScaled { beta, .. } => beta,
            _ => Scalar::zero(),
        }
    }

    /// The scale of the second operand; zero where it has none.
    pub fn beta(&self) -> (r: Scalar)
        ensures
            r == self.beta_of(),
    {
        match self.binary {
            EpilogueBinary::AddScaled { beta, .. } => beta,
            _ => Scalar::zero(),
        }
    }
}

/// Geometry for the fused store epilogue (see [`MatmulStore`]).
///
/// The effective position is `P = pos_base + *pos_addr`; the scatter element
/// address for output column `c` is `P * pos_scale + (c / head_dim) *
/// stride_head + (c % head_dim) * stride_dim`. RoPE rotates the interleaved
/// `(even, odd)` column pairs of each head by the angle at row
/// `P * head_dim/2 + (c % head_dim)/2` of a `[T_max, head_dim/2, 2]`
/// `(cos, sin)` table.
#[derive(Copy, Clone, Debug, PartialEq, Eq, Structural)]
pub struct MatmulStoreDesc {
    /// Head vector length; even, must divide N.
    pub head_dim: u32,
    /// Absolute position of the produced row.
    pub pos_base: u32,
    /// Destination element advance per position (scatter modes).
    pub pos_scale: u32,
    /// Destination element stride per head (scatter modes).
    pub stride_head: u32,
    /// Destination element stride per head lane (scatter modes).
    pub stride_dim: u32,
    /// Optional device address of a position cell (0 = none): the effective
    /// position becomes `pos_base + *cell` at execution time. Bounds and
    /// table-coverage validation only see `pos_base`.
    pub pos_addr: u64,
}

impl Default for MatmulStoreDesc {
    fn default() -> (r: Self)
        ensures
            r == Self::zero(),
    {
        MatmulStoreDesc {
            head_dim: 0,
            pos_base: 0,
            pos_scale: 0,
            stride_head: 0,
            stride_dim: 0,
            pos_addr: 0,
        }
    }
}

impl MatmulStoreDesc {
    /// All fields zero.
    pub open spec fn zero() -> Self {
        MatmulStoreDesc {
            head_dim: 0,
            pos_base: 0,
            pos_scale: 0,
            stride_head: 0,
            stride_dim: 0,
            pos_addr: 0,
        }
    }
}

/// Fused store-time destination for the M=1 f16-weights row GEMVs: the
/// output row is RoPE-rotated and/or scattered into a strided KV-cache
/// layout as it leaves the kernel.
///
/// Excludes `accumulate` and every [`Epilogue`] form. `dst` may be f32 or
/// f16 storage; the scatter modes never touch C.
#[derive(Copy, Clone)]
pub enum MatmulStore<'a> {
    Absent,
    /// Rotate adjacent output pairs and store to C.
    Rope { table: &'a Tensor, desc: MatmulStoreDesc },
    /// Scatter the row into `dst`.
    Scatter { dst: &'a Tensor, desc: MatmulStoreDesc },
    /// Rotate, then scatter.
    RopeScatter { table: &'a Tensor, dst: &'a Tensor, desc: MatmulStoreDesc },
}

impl<'a> Default for MatmulStore<'a> {
    fn default() -> (r: Self)
        ensures
            r == MatmulStore::<'a>::Absent,
    {
        MatmulStore::Absent
    }
}

impl<'a> MatmulStore<'a> {
    /// Whether the row is stored to C as it is.
    pub fn is_none(&self) -> (r: bool)
        ensures
            r == (*self is Absent),
    {
        matches!(self, MatmulStore::Absent)
    }

    /// Shader `STORE_MODE` value.
    pub open spec fn mode_of(self) -> u32 {
        match self {
            MatmulStore::Absent => 0,
            MatmulStore::Rope { .. } => 1,
            MatmulStore::Scatter { .. } => 2,
            MatmulStore::RopeScatter { .. } => 3,
        }
    }

    /// Shader `STORE_MODE` value.
    pub fn mode(&self) -> (r: u32)
        ensures
            r == self.mode_of(),
    {
        match self {
            MatmulStore::Absent => 0,
            MatmulStore::Rope { .. } => 1,
            MatmulStore::Scatter { .. } => 2,
            MatmulStore::RopeScatter { .. } => 3,
        }
    }

    /// The rotation table, where the row is rotated.
    pub open spec fn table_of(self) -> Option<&'a Tensor> {
        match self {
            MatmulStore::Rope { table, .. } => Some(table),
            MatmulStore::RopeScatter { table, .. } => Some(table),
            _ => None,
        }
    }

    /// The rotation table, where the row is rotated.
    pub fn table(&self) -> (r: Option<&'a Tensor>)
        ensures
            r == self.table_of(),
    {
        match self {
            MatmulStore::Rope { table, .. } => Some(*table),
            MatmulStore::RopeScatter { table, .. } => Some(*table),
            _ => None,
        }
    }

    /// The destination, where the row is scattered.
    pub open spec fn dst_of(self) -> Option<&'a Tensor> {
        match self {
            MatmulStore::Scatter { dst, .. } => Some(dst),
            MatmulStore::RopeScatter { dst, .. } => Some(dst),
            _ => None,
        }
    }

    /// The destination, where the row is scattered.
    pub fn dst(&self) -> (r: Option<&'a Tensor>)
        ensures
            r == self.dst_of(),
    {
        match self {
            MatmulStore::Scatter { dst, .. } => Some(*dst),
            MatmulStore::RopeScatter { dst, .. } => Some(*dst),
            _ => None,
        }
    }

    /// The geometry; all zero where there is none.
    pub open spec fn desc_of(self) -> MatmulStoreDesc {
        match self {
            MatmulStore::Absent => MatmulStoreDesc::zero(),
            MatmulStore::Rope { desc, .. } => desc,
            MatmulStore::Scatter { desc, .. } => desc,
            MatmulStore::RopeScatter { desc, .. } => desc,
        }
    }

    /// The geometry; all zero where there is none.
    pub fn desc(&self) -> (r: MatmulStoreDesc)
        ensures
            r == self.desc_of(),
    {
        match self {
            MatmulStore::Absent => MatmulStoreDesc::default(),
            MatmulStore::Rope { desc, .. } => *desc,
            MatmulStore::Scatter { desc, .. } => *desc,
            MatmulStore::RopeScatter { desc, .. } => *desc,
        }
    }
}

/// A GEMM call plus what is fused into it.
#[derive(Copy, Clone)]
pub struct MatmulOp<'a> {
    pub call: MatmulCall<'a>,
    pub epilogue: Epilogue<'a>,
    /// `(weight, eps)`: RMS-normalize each A row in the kernel before the
    /// product, i.e. compute `C = rms_norm(A, weight, eps) @ B`. Only the
    /// row-GEMV kernels implement this, so it is restricted to M=1 calls;
    /// the norm weight rides the bias slot and `eps` rides `beta`, so it
    /// cannot combine with an epilogue bias or the `AddScaled` binary.
    pub normed_a: Option<(&'a Tensor, Scalar)>,
    /// Fused store-time RoPE / KV-cache scatter (see [`MatmulStore`]).
    pub store: MatmulStore<'a>,
    /// B is laid out as `[N / tile_n][K][tile_n]` for the packed row
    /// kernels.
    pub packed_b: bool,
}

impl<'a> MatmulOp<'a> {
    /// `call` with nothing fused into it.
    pub open spec fn plain(call: MatmulCall<'a>) -> Self {
        MatmulOp {
            call,
            epilogue: Epilogue::plain(),
            normed_a: None,
            store: MatmulStore::Absent,
            packed_b: false,
        }
    }

    /// `call` with nothing fused into it.
    pub fn new(call: MatmulCall<'a>) -> (r: Self)
        ensures
            r == Self::plain(call),
    {
        MatmulOp {
            call,
            epilogue: Epilogue::default(),
            normed_a: None,
            store: MatmulStore::Absent,
            packed_b: false,
        }
    }

    /// `call` with a fused epilogue.
    pub fn with_epilogue(call: MatmulCall<'a>, epilogue: Epilogue<'a>) -> (r: Self)
        ensures
            r == (MatmulOp { epilogue, ..Self::plain(call) }),
    {
        MatmulOp { call, epilogue, normed_a: None, store: MatmulStore::Absent, packed_b: false }
    }

    /// Fold an RMSNorm of A into the kernel (see [`MatmulOp::normed_a`]).
    pub fn with_normed_a(self, weight: &'a Tensor, eps: Scalar) -> (r: Self)
        ensures
            r == (MatmulOp { normed_a: Some((weight, eps)), ..self }),
    {
        MatmulOp { normed_a: Some((weight, eps)), ..self }
    }

    /// RoPE-rotate the output row in place at store time.
    pub fn with_store_rope(self, table: &'a Tensor, desc: MatmulStoreDesc) -> (r: Self)
        ensures
            r == (MatmulOp { store: MatmulStore::Rope { table, desc }, ..self }),
    {
        MatmulOp { store: MatmulStore::Rope { table, desc }, ..self }
    }

    /// Scatter the output row into `dst` at store time; C is never written.
    pub fn with_store_scatter(self, dst: &'a Tensor, desc: MatmulStoreDesc) -> (r: Self)
        ensures
            r == (MatmulOp { store: MatmulStore::Scatter { dst, desc }, ..self }),
    {
        MatmulOp { store: MatmulStore::Scatter { dst, desc }, ..self }
    }

    /// RoPE-rotate, then scatter into `dst`; C is never written.
    pub fn with_store_rope_scatter(
        self,
        table: &'a Tensor,
        dst: &'a Tensor,
        desc: MatmulStoreDesc,
    ) -> (r: Self)
        ensures
            r == (MatmulOp { store: MatmulStore::RopeScatter { table, dst, desc }, ..self }),
    {
        MatmulOp { store: MatmulStore::RopeScatter { table, dst, desc }, ..self }
    }
}

impl<'a> From<MatmulCall<'a>> for MatmulOp<'a> {
    fn from(call: MatmulCall<'a>) -> (r: Self) {
        MatmulOp::new(call)
    }
}

impl<'a> vstd::std_specs::convert::FromSpecImpl<MatmulCall<'a>> for MatmulOp<'a> {
    open spec fn obeys_from_spec() -> bool {
        true
    }

    open spec fn from_spec(call: MatmulCall<'a>) -> Self {
        MatmulOp::plain(call)
    }
}

/// Per-run statistics. `gpu_time_ns` is the on-device time measured by
/// timestamp queries, or `None` where the device does not support them.
#[derive(Copy, Clone, Debug, PartialEq, Eq, Structural)]
pub struct RunStats {
    pub gpu_time_ns: Option<u64>,
    pub n_calls: usize,
    pub total_flops: u64,
}

} // verus!
