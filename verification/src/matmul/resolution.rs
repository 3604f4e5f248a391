//! From tensor shapes to the extents, strides and counts that a dispatch
//! needs.

use crate::arith::lemma_mul_u32;
use crate::dtype::{DType, Scalar};
use crate::error::{outcome, refused, refused_shapes, DimName, Error, ErrorView, Refusal, Role};
use crate::matmul::api::{EpilogueBinary, MatmulCall, MatmulOp, MatmulStore};
use crate::pipeline::abi::MatmulPushConstants;
use crate::tensor::Tensor;
use vstd::prelude::*;

verus! {

/// A matrix or batched-matrix shape normalized to `[B, rows, cols]`.
#[derive(Copy, Clone, Debug, PartialEq, Eq, Structural)]
pub struct MatrixShape {
    pub batch: u32,
    pub rows: u32,
    pub cols: u32,
}

impl MatrixShape {
    /// `[rows, cols]` or `[batch, rows, cols]`, all non-zero; or why a shape
    /// is neither.
    pub open spec fn of_shape(shape: Seq<u32>) -> Result<MatrixShape, ErrorView> {
        if shape.len() != 2 && shape.len() != 3 {
            Err(refused(Refusal::MatmulRank { rank: shape.len() as usize }))
        } else {
            let s = if shape.len() == 2 {
                MatrixShape { batch: 1, rows: shape[0], cols: shape[1] }
            } else {
                MatrixShape { batch: shape[0], rows: shape[1], cols: shape[2] }
            };
            if s.batch == 0 || s.rows == 0 || s.cols == 0 {
                Err(
                    refused(
                        Refusal::MatmulZeroDimension { batch: s.batch, rows: s.rows, cols: s.cols },
                    ),
                )
            } else {
                Ok(s)
            }
        }
    }

    /// Convert rank-2 `[rows, cols]` or rank-3 `[batch, rows, cols]` shapes.
    pub fn from_tensor_shape(shape: &[u32]) -> (r: Result<Self, Error>)
        ensures
            outcome(r) == Self::of_shape(shape@),
    {
        let normalized: MatrixShape = if shape.len() == 2 {
            MatrixShape { batch: 1, rows: shape[0], cols: shape[1] }
        } else if shape.len() == 3 {
            MatrixShape { batch: shape[0], rows: shape[1], cols: shape[2] }
        } else {
            return Err(Error::new(Refusal::MatmulRank { rank: shape.len() }));
        };
        if normalized.batch == 0 || normalized.rows == 0 || normalized.cols == 0 {
            return Err(
                Error::new(
                    Refusal::MatmulZeroDimension {
                        batch: normalized.batch,
                        rows: normalized.rows,
                        cols: normalized.cols,
                    },
                ),
            );
        }
        Ok(normalized)
    }

    fn from_tensor(tensor: &Tensor) -> (r: Result<Self, Error>)
        ensures
            outcome(r) == Self::of_shape(tensor@.shape),
    {
        MatrixShape::from_tensor_shape(tensor.shape())
    }

    /// Elements between two matrices of the batch (zero for a single one),
    /// where the shader can address the whole layout: its offsets are 32-bit,
    /// so it holds at most 2^32 elements.
    pub open spec fn stride_result(self, operand: Role) -> Result<u32, ErrorView> {
        let plane = self.rows * self.cols;
        if self.batch != 1 && plane > u32::MAX {
            Err(refused(Refusal::BatchStrideOverflow { operand }))
        } else if self.batch * plane > 0x1_0000_0000 {
            Err(
                refused(
                    Refusal::LayoutTooLarge {
                        operand,
                        batch: self.batch,
                        rows: self.rows,
                        cols: self.cols,
                    },
                ),
            )
        } else {
            Ok(if self.batch == 1 { 0 } else { plane as u32 })
        }
    }

    /// Elements between two matrices of the batch, where the layout is
    /// addressable.
    pub fn batch_stride(self, operand: Role) -> (r: Result<u32, Error>)
        ensures
            outcome(r) == self.stride_result(operand),
    {
        proof {
            assert(0 <= self.rows * self.cols <= 0xFFFF_FFFE_0000_0001) by (nonlinear_arith)
                requires
                    self.rows <= u32::MAX,
                    self.cols <= u32::MAX,
            ;
            assert(1 * (self.rows * self.cols) == self.rows * self.cols);
        }
        let plane: u64 = self.rows as u64 * self.cols as u64;
        let stride: u32 = if self.batch == 1 {
            0
        } else if plane > u32::MAX as u64 {
            return Err(Error::new(Refusal::BatchStrideOverflow { operand }));
        } else {
            plane as u32
        };
        let addressable: bool = match (self.batch as u64).checked_mul(plane) {
            Some(elements) => elements <= 0x1_0000_0000,
            None => false,
        };
        if !addressable {
            return Err(
                Error::new(
                    Refusal::LayoutTooLarge {
                        operand,
                        batch: self.batch,
                        rows: self.rows,
                        cols: self.cols,
                    },
                ),
            );
        }
        Ok(stride)
    }
}

/// A validated matmul: extents, batch strides and work, and how the
/// operands are stored.
#[derive(Copy, Clone, Debug, PartialEq, Eq, Structural)]
pub struct ResolvedMatmul {
    pub m: u32,
    pub n: u32,
    pub k: u32,
    pub batch: u32,
    pub batch_stride_a: u32,
    pub batch_stride_b: u32,
    pub batch_stride_c: u32,
    pub total_flops: u64,
    /// B is stored as f16.
    pub b_f16: bool,
    /// A is stored as f16.
    pub a_f16: bool,
    /// B is laid out for the packed row kernels.
    pub packed_b: bool,
}

/// The product of `values`, where it and the product of every prefix fits.
pub open spec fn checked_product_of(values: Seq<u64>) -> Option<u64>
    decreases values.len(),
{
    if values.len() == 0 {
        Some(1)
    } else {
        match checked_product_of(values.drop_last()) {
            None => None,
            Some(p) => if p * values.last() > u64::MAX {
                None
            } else {
                Some((p * values.last()) as u64)
            },
        }
    }
}

/// The product of `values`, or `None` once a prefix overflows.
pub fn checked_product(values: &[u64]) -> (r: Option<u64>)
    ensures
        r == checked_product_of(values@),
{
    let mut product: u64 = 1;
    let mut i: usize = 0;
    while i < values.len()
        invariant
            i <= values@.len(),
            checked_product_of(values@.take(i as int)) == Some(product),
        decreases values.len() - i,
    {
        proof {
            let next = values@.take(i + 1);
            assert(next.drop_last() =~= values@.take(i as int));
            assert(next.last() == values@[i as int]);
            lemma_product_failure_stays(values@, i + 1, values@.len() as int);
            assert(values@.take(values@.len() as int) =~= values@);
        }
        match product.checked_mul(values[i]) {
            None => return None,
            Some(p) => {
                product = p;
            }
        }
        i = i + 1;
    }
    assert(values@.take(i as int) =~= values@);
    Some(product)
}

proof fn lemma_product_failure_stays(values: Seq<u64>, i: int, j: int)
    requires
        0 <= i <= j <= values.len(),
    ensures
        checked_product_of(values.take(i)) is None ==> checked_product_of(values.take(j)) is None,
    decreases j - i,
{
    if i < j {
        lemma_product_failure_stays(values, i, j - 1);
        assert(values.take(j).drop_last() =~= values.take(j - 1));
    }
}

/// The work of a batched product, in floating-point operations: a
/// multiplication and an addition per element of every inner product.
pub open spec fn flops_of(batch: int, m: int, n: int, k: int) -> int {
    2 * batch * m * n * k
}

/// The work of a batched product, where it fits.
pub open spec fn flops_result(batch: u32, m: u32, n: u32, k: u32) -> Result<u64, ErrorView> {
    match checked_product_of(seq![2u64, batch as u64, m as u64, n as u64, k as u64]) {
        Some(flops) => Ok(flops),
        None => Err(refused(Refusal::FlopOverflow)),
    }
}

/// The work of a batched product, where it fits.
pub fn checked_flops(batch: u32, m: u32, n: u32, k: u32) -> (r: Result<u64, Error>)
    ensures
        outcome(r) == flops_result(batch, m, n, k),
        r is Ok ==> r->Ok_0 == flops_of(batch as int, m as int, n as int, k as int),
        batch > 0 && m > 0 && n > 0 && k > 0 ==> (r is Ok <==> flops_of(
            batch as int,
            m as int,
            n as int,
            k as int,
        ) <= u64::MAX),
{
    let values: [u64; 5] = [2, batch as u64, m as u64, n as u64, k as u64];
    proof {
        assert(values@ =~= seq![2u64, batch as u64, m as u64, n as u64, k as u64]);
        lemma_flops(batch, m, n, k);
    }
    match checked_product(values.as_slice()) {
        Some(flops) => Ok(flops),
        None => Err(Error::new(Refusal::FlopOverflow)),
    }
}

/// Where the work fits, it is the plain product; and for non-zero extents it
/// fits whenever the plain product does.
pub proof fn lemma_flops(batch: u32, m: u32, n: u32, k: u32)
    ensures
        flops_result(batch, m, n, k) is Ok ==> flops_result(batch, m, n, k)->Ok_0 == flops_of(
            batch as int,
            m as int,
            n as int,
            k as int,
        ),
        batch > 0 && m > 0 && n > 0 && k > 0 ==> (flops_result(batch, m, n, k) is Ok <==> flops_of(
            batch as int,
            m as int,
            n as int,
            k as int,
        ) <= u64::MAX),
{
    let v = seq![2u64, batch as u64, m as u64, n as u64, k as u64];
    let v4 = seq![2u64, batch as u64, m as u64, n as u64];
    let v3 = seq![2u64, batch as u64, m as u64];
    let v2 = seq![2u64, batch as u64];
    let v1 = seq![2u64];
    assert(v.drop_last() =~= v4);
    assert(v4.drop_last() =~= v3);
    assert(v3.drop_last() =~= v2);
    assert(v2.drop_last() =~= v1);
    assert(v1.drop_last() =~= Seq::<u64>::empty());
    reveal_with_fuel(checked_product_of, 6);
    assert(checked_product_of(v1) == Some(2u64));
    let p2 = 2 * batch as int;
    let p3 = p2 * m as int;
    let p4 = p3 * n as int;
    let p5 = p4 * k as int;
    assert(p5 == flops_of(batch as int, m as int, n as int, k as int));
    assert(checked_product_of(v2) == Some(p2 as u64));
    assert(checked_product_of(v3) == (if p3 > u64::MAX { None } else { Some(p3 as u64) }));
    assert(checked_product_of(v4) is Some ==> checked_product_of(v4) == Some(p4 as u64));
    assert(checked_product_of(v) is Some ==> checked_product_of(v) == Some(p5 as u64));
    if batch > 0 && m > 0 && n > 0 && k > 0 {
        assert(p3 >= p2) by (nonlinear_arith)
            requires
                p3 == p2 * m as int,
                m >= 1,
                p2 >= 2,
        ;
        assert(p4 >= p3) by (nonlinear_arith)
            requires
                p4 == p3 * n as int,
                n >= 1,
                p3 >= 2,
        ;
        assert(p5 >= p4) by (nonlinear_arith)
            requires
                p5 == p4 * k as int,
                k >= 1,
                p4 >= 2,
        ;
    }
}

/// Two extents that have to be equal.
pub open spec fn dim_eq_result(
    left_label: DimName,
    left: u32,
    right_label: DimName,
    right: u32,
) -> Result<(), ErrorView> {
    if left != right {
        Err(refused(Refusal::DimMismatch { left_label, left, right_label, right }))
    } else {
        Ok(())
    }
}

/// Two extents that have to be equal.
pub fn ensure_dim_eq(
    left_label: DimName,
    left: u32,
    right_label: DimName,
    right: u32,
) -> (r: Result<(), Error>)
    ensures
        outcome(r) == dim_eq_result(left_label, left, right_label, right),
{
    if left != right {
        return Err(Error::new(Refusal::DimMismatch { left_label, left, right_label, right }));
    }
    Ok(())
}

/// An input batch has to equal the output batch or to be one.
pub open spec fn broadcast_result(
    operand: Role,
    input_batch: u32,
    output_batch: u32,
) -> Result<(), ErrorView> {
    if input_batch != 1 && input_batch != output_batch {
        Err(refused(Refusal::BatchMismatch { operand, input_batch, output_batch }))
    } else {
        Ok(())
    }
}

/// An input batch has to equal the output batch or to be one.
pub fn ensure_broadcastable(operand: Role, input_batch: u32, output_batch: u32) -> (r: Result<
    (),
    Error,
>)
    ensures
        outcome(r) == broadcast_result(operand, input_batch, output_batch),
{
    if input_batch != 1 && input_batch != output_batch {
        return Err(
            Error::new(Refusal::BatchMismatch { operand, input_batch, output_batch }),
        );
    }
    Ok(())
}

/// The matmul of three normalized f32 operands, or the first check it fails:
/// extents that disagree, then batches, then layouts, then the work.
pub open spec fn resolve_shapes(a: MatrixShape, b: MatrixShape, c: MatrixShape) -> Result<
    ResolvedMatmul,
    ErrorView,
> {
    if a.cols != b.rows {
        Err(
            refused(
                Refusal::DimMismatch {
                    left_label: DimName::AK,
                    left: a.cols,
                    right_label: DimName::BK,
                    right: b.rows,
                },
            ),
        )
    } else if a.rows != c.rows {
        Err(
            refused(
                Refusal::DimMismatch {
                    left_label: DimName::AM,
                    left: a.rows,
                    right_label: DimName::CM,
                    right: c.rows,
                },
            ),
        )
    } else if b.cols != c.cols {
        Err(
            refused(
                Refusal::DimMismatch {
                    left_label: DimName::BN,
                    left: b.cols,
                    right_label: DimName::CN,
                    right: c.cols,
                },
            ),
        )
    } else if let Err(e) = broadcast_result(Role::A, a.batch, c.batch) {
        Err(e)
    } else if let Err(e) = broadcast_result(Role::B, b.batch, c.batch) {
        Err(e)
    } else if let Err(e) = a.stride_result(Role::A) {
        Err(e)
    } else if let Err(e) = b.stride_result(Role::B) {
        Err(e)
    } else if let Err(e) = c.stride_result(Role::C) {
        Err(e)
    } else if let Err(e) = flops_result(c.batch, a.rows, b.cols, a.cols) {
        Err(e)
    } else {
        Ok(
            ResolvedMatmul {
                m: a.rows,
                n: b.cols,
                k: a.cols,
                batch: c.batch,
                batch_stride_a: a.stride_result(Role::A)->Ok_0,
                batch_stride_b: b.stride_result(Role::B)->Ok_0,
                batch_stride_c: c.stride_result(Role::C)->Ok_0,
                total_flops: flops_result(c.batch, a.rows, b.cols, a.cols)->Ok_0,
                b_f16: false,
                a_f16: false,
                packed_b: false,
            },
        )
    }
}

/// [`resolve_shapes`] of raw shapes.
pub open spec fn resolve_raw(a: Seq<u32>, b: Seq<u32>, c: Seq<u32>) -> Result<
    ResolvedMatmul,
    ErrorView,
> {
    match MatrixShape::of_shape(a) {
        Err(e) => Err(e),
        Ok(a) => match MatrixShape::of_shape(b) {
            Err(e) => Err(e),
            Ok(b) => match MatrixShape::of_shape(c) {
                Err(e) => Err(e),
                Ok(c) => resolve_shapes(a, b, c),
            },
        },
    }
}

/// The matmul that a call asks for.
pub open spec fn resolve_call(call: MatmulCall) -> Result<ResolvedMatmul, ErrorView> {
    match resolve_raw(call.a@.shape, call.b@.shape, call.c@.shape) {
        Err(e) => Err(e),
        Ok(dims) => Ok(
            ResolvedMatmul {
                b_f16: call.b@.dtype == DType::F16,
                a_f16: call.a@.dtype == DType::F16,
                ..dims
            },
        ),
    }
}

/// A bias is one row of N elements, or one such row per matrix of the batch.
pub open spec fn bias_shape_result(dims: ResolvedMatmul, shape: Seq<u32>) -> Result<(), ErrorView> {
    if shape != seq![dims.n] && shape != seq![dims.batch, dims.n] {
        Err(
            refused_shapes(
                Refusal::BiasShape { batch: dims.batch, n: dims.n },
                shape,
                Seq::empty(),
            ),
        )
    } else {
        Ok(())
    }
}

/// Whether an operation's epilogue fits the matmul it is fused into.
pub open spec fn epilogue_result(dims: ResolvedMatmul, op: MatmulOp) -> Result<(), ErrorView> {
    if op.epilogue.bias is Some && bias_shape_result(dims, op.epilogue.bias->0@.shape) is Err {
        bias_shape_result(dims, op.epilogue.bias->0@.shape)
    } else if op.epilogue.d_of() is Some && op.epilogue.d_of()->0@.shape != op.call.c@.shape {
        Err(refused_shapes(Refusal::DShape, op.epilogue.d_of()->0@.shape, op.call.c@.shape))
    } else {
        Ok(())
    }
}

/// Elements that a fused store's rotation table has to hold: a
/// `(cos, sin)` pair for every lane pair of every position up to its own.
pub open spec fn store_table_needed(store: MatmulStore) -> int {
    (store.desc_of().pos_base + 1) * store.desc_of().head_dim
}

/// The farthest element that a fused scatter of a row of `n` writes.
pub open spec fn store_reach(store: MatmulStore, n: u32) -> int {
    let desc = store.desc_of();
    desc.pos_base * desc.pos_scale + (n as int / desc.head_dim as int - 1) * desc.stride_head + (
    desc.head_dim - 1) * desc.stride_dim
}

/// Whether an operation's fused norm and fused store can be combined with
/// the rest of it, and whether the store stays inside its tensors.
pub open spec fn fusion_result(dims: ResolvedMatmul, op: MatmulOp) -> Result<(), ErrorView> {
    let head_dim = op.store.desc_of().head_dim;
    if op.normed_a is Some && (op.epilogue.bias is Some || op.epilogue.binary is AddScaled) {
        Err(refused(Refusal::NormedAWithBias))
    } else if op.store is Absent {
        Ok(())
    } else if op.call.accumulate {
        Err(refused(Refusal::StoreWithAccumulate))
    } else if op.epilogue != crate::matmul::api::Epilogue::plain() {
        Err(refused(Refusal::StoreWithEpilogue))
    } else if head_dim == 0 || head_dim % 2 != 0 || dims.n % head_dim != 0 {
        Err(refused(Refusal::StoreHeadDim { head_dim, n: dims.n }))
    } else if op.store.table_of() is Some && op.store.table_of()->0@.len() < store_table_needed(
        op.store,
    ) {
        Err(
            refused(
                Refusal::StoreTable {
                    len: op.store.table_of()->0@.len() as u64,
                    needed: store_table_needed(op.store) as u64,
                },
            ),
        )
    } else if op.store.dst_of() is Some && op.store.dst_of()->0@.len() <= store_reach(
        op.store,
        dims.n,
    ) {
        Err(refused(Refusal::StoreBounds { len: op.store.dst_of()->0@.len() as u64 }))
    } else {
        Ok(())
    }
}

/// The matmul that an operation's operands ask for, whatever is fused into it,
/// or the first check that they fail.
pub open spec fn resolve_unfused(op: MatmulOp) -> Result<ResolvedMatmul, ErrorView> {
    match resolve_call(op.call) {
        Err(e) => Err(e),
        Ok(dims) => {
            let dims = ResolvedMatmul { packed_b: op.packed_b, ..dims };
            match epilogue_result(dims, op) {
                Err(e) => Err(e),
                Ok(_) => Ok(dims),
            }
        },
    }
}

/// The matmul that an operation asks for, or the first check it fails.
pub open spec fn resolve_op(op: MatmulOp) -> Result<ResolvedMatmul, ErrorView> {
    match resolve_unfused(op) {
        Err(e) => Err(e),
        Ok(dims) => match fusion_result(dims, op) {
            Err(e) => Err(e),
            Ok(_) => Ok(dims),
        },
    }
}

/// Every operation resolved, or the error of the first that is refused.
pub open spec fn resolve_ops(ops: Seq<MatmulOp>) -> Result<Seq<ResolvedMatmul>, ErrorView>
    decreases ops.len(),
{
    if ops.len() == 0 {
        Ok(Seq::empty())
    } else {
        match resolve_ops(ops.drop_last()) {
            Err(e) => Err(e),
            Ok(front) => match resolve_op(ops.last()) {
                Err(e) => Err(e),
                Ok(dims) => Ok(front.push(dims)),
            },
        }
    }
}

/// The summed work of `resolved`.
pub open spec fn flops_sum(resolved: Seq<ResolvedMatmul>) -> int
    decreases resolved.len(),
{
    if resolved.len() == 0 {
        0
    } else {
        flops_sum(resolved.drop_last()) + resolved.last().total_flops
    }
}

/// The resolved operations of one submission; a single one takes no
/// allocation.
pub enum ResolvedMatmulBatch {
    One([ResolvedMatmul; 1]),
    Many(Vec<ResolvedMatmul>),
}

impl View for ResolvedMatmulBatch {
    type V = Seq<ResolvedMatmul>;

    open spec fn view(&self) -> Seq<ResolvedMatmul> {
        match self {
            ResolvedMatmulBatch::One(resolved) => resolved@,
            ResolvedMatmulBatch::Many(resolved) => resolved@,
        }
    }
}

impl ResolvedMatmulBatch {
    /// Resolve every operation.
    pub fn from_ops(ops: &[MatmulOp<'_>]) -> (r: Result<Self, Error>)
        ensures
            match resolve_ops(ops@) {
                Ok(resolved) => r is Ok && r->Ok_0@ == resolved && resolved.len() == ops@.len(),
                Err(e) => r is Err && r->Err_0@ == e,
            },
    {
        if ops.len() == 1 {
            proof {
                assert(ops@.drop_last() =~= Seq::empty());
                reveal_with_fuel(resolve_ops, 2);
            }
            return match ResolvedMatmul::from_op(&ops[0]) {
                Ok(dims) => {
                    let r = ResolvedMatmulBatch::One([dims]);
                    assert(r@ =~= seq![dims]);
                    assert(Seq::<ResolvedMatmul>::empty().push(dims) =~= seq![dims]);
                    Ok(r)
                }
                Err(e) => Err(e),
            };
        }
        let mut resolved: Vec<ResolvedMatmul> = Vec::new();
        let mut i: usize = 0;
        while i < ops.len()
            invariant
                i <= ops@.len(),
                resolved@.len() == i,
                resolve_ops(ops@.take(i as int)) == Ok::<Seq<ResolvedMatmul>, ErrorView>(resolved@),
            decreases ops.len() - i,
        {
            proof {
                let next = ops@.take(i + 1);
                assert(next.drop_last() =~= ops@.take(i as int));
                assert(next.last() == ops@[i as int]);
                lemma_resolve_failure_stays(ops@, i + 1, ops@.len() as int);
                assert(ops@.take(ops@.len() as int) =~= ops@);
            }
            match ResolvedMatmul::from_op(&ops[i]) {
                Ok(dims) => resolved.push(dims),
                Err(e) => return Err(e),
            }
            i = i + 1;
        }
        assert(ops@.take(i as int) =~= ops@);
        Ok(ResolvedMatmulBatch::Many(resolved))
    }

    /// The resolved operations, in order.
    pub fn as_slice(&self) -> (r: &[ResolvedMatmul])
        ensures
            r@ == self@,
    {
        match self {
            ResolvedMatmulBatch::One(resolved) => resolved.as_slice(),
            ResolvedMatmulBatch::Many(resolved) => resolved.as_slice(),
        }
    }
}

proof fn lemma_resolve_failure_stays(ops: Seq<MatmulOp>, i: int, j: int)
    requires
        0 <= i <= j <= ops.len(),
    ensures
        resolve_ops(ops.take(i)) is Err ==> resolve_ops(ops.take(j)) == resolve_ops(ops.take(i)),
    decreases j - i,
{
    if i < j {
        lemma_resolve_failure_stays(ops, i, j - 1);
        assert(ops.take(j).drop_last() =~= ops.take(j - 1));
    }
}

impl ResolvedMatmul {
    /// Resolve a call.
    pub fn from_call(call: &MatmulCall<'_>) -> (r: Result<Self, Error>)
        ensures
            outcome(r) == resolve_call(*call),
    {
        let a: MatrixShape = match MatrixShape::from_tensor(call.a) {
            Ok(s) => s,
            Err(e) => return Err(e),
        };
        let b: MatrixShape = match MatrixShape::from_tensor(call.b) {
            Ok(s) => s,
            Err(e) => return Err(e),
        };
        let c: MatrixShape = match MatrixShape::from_tensor(call.c) {
            Ok(s) => s,
            Err(e) => return Err(e),
        };
        match ResolvedMatmul::from_matrix_shapes(a, b, c) {
            Ok(dims) => Ok(
                ResolvedMatmul {
                    b_f16: call.b.dtype() == DType::F16,
                    a_f16: call.a.dtype() == DType::F16,
                    ..dims
                },
            ),
            Err(e) => Err(e),
        }
    }

    /// Resolve a call together with what is fused into it.
    pub fn from_op(op: &MatmulOp<'_>) -> (r: Result<Self, Error>)
        ensures
            outcome(r) == resolve_op(*op),
    {
        let dims: ResolvedMatmul = match ResolvedMatmul::from_op_unfused(op) {
            Ok(dims) => dims,
            Err(e) => return Err(e),
        };
        if let Err(e) = dims.validate_fusions(op) {
            return Err(e);
        }
        Ok(dims)
    }

    /// The matmul that the operands of `op` ask for. What is fused into it is
    /// left to the caller to check.
    pub(crate) fn from_op_unfused(op: &MatmulOp<'_>) -> (r: Result<Self, Error>)
        ensures
            outcome(r) == resolve_unfused(*op),
    {
        let dims: ResolvedMatmul = match ResolvedMatmul::from_call(&op.call) {
            Ok(dims) => ResolvedMatmul { packed_b: op.packed_b, ..dims },
            Err(e) => return Err(e),
        };
        if let Err(e) = dims.validate_epilogue(op) {
            return Err(e);
        }
        Ok(dims)
    }

    /// Whether the epilogue of `op` fits this matmul.
    pub fn validate_epilogue(&self, op: &MatmulOp<'_>) -> (r: Result<(), Error>)
        ensures
            outcome(r) == epilogue_result(*self, *op),
    {
        if let Some(bias) = op.epilogue.bias {
            if let Err(e) = self.validate_bias_shape(bias.shape()) {
                return Err(e);
            }
        }
        if let Some(d) = op.epilogue.d_tensor() {
            if !same_shape(d.shape(), op.call.c.shape()) {
                return Err(
                    Error::with_shapes(Refusal::DShape, d.shape(), op.call.c.shape()),
                );
            }
        }
        Ok(())
    }

    /// Whether the fused norm and the fused store of `op` fit this matmul.
    pub fn validate_fusions(&self, op: &MatmulOp<'_>) -> (r: Result<(), Error>)
        ensures
            outcome(r) == fusion_result(*self, *op),
    {
        if op.normed_a.is_some() && (op.epilogue.bias.is_some() || matches!(
            op.epilogue.binary,
            EpilogueBinary::AddScaled { .. }
        )) {
            return Err(Error::new(Refusal::NormedAWithBias));
        }
        if op.store.is_none() {
            return Ok(());
        }
        if op.call.accumulate {
            return Err(Error::new(Refusal::StoreWithAccumulate));
        }
        if !op.epilogue.is_none() {
            return Err(Error::new(Refusal::StoreWithEpilogue));
        }
        let desc = op.store.desc();
        let head_dim: u32 = desc.head_dim;
        if head_dim == 0 || head_dim % 2 != 0 || self.n % head_dim != 0 {
            return Err(Error::new(Refusal::StoreHeadDim { head_dim, n: self.n }));
        }
        if let Some(table) = op.store.table() {
            assert((desc.pos_base + 1) * head_dim <= 0x1_0000_0000 * 0x1_0000_0000 - 1)
                by (nonlinear_arith)
                requires
                    desc.pos_base <= u32::MAX,
                    head_dim <= u32::MAX,
            ;
            let needed: u64 = (desc.pos_base as u64 + 1) * head_dim as u64;
            let len: u64 = table.len();
            if len < needed {
                return Err(Error::new(Refusal::StoreTable { len, needed }));
            }
        }
        if let Some(dst) = op.store.dst() {
            let heads: u32 = self.n / head_dim;
            let len: u64 = dst.len();
            proof {
                lemma_mul_u32(desc.pos_base as int, desc.pos_scale as int);
                lemma_mul_u32(heads - 1, desc.stride_head as int);
                lemma_mul_u32(head_dim - 1, desc.stride_dim as int);
            }
            let reach: i128 = desc.pos_base as i128 * desc.pos_scale as i128 + (heads as i128 - 1)
                * desc.stride_head as i128 + (head_dim as i128 - 1) * desc.stride_dim as i128;
            if len as i128 <= reach {
                return Err(Error::new(Refusal::StoreBounds { len }));
            }
        }
        Ok(())
    }

    /// Whether a bias of this shape fits this matmul.
    pub fn validate_bias_shape(&self, shape: &[u32]) -> (r: Result<(), Error>)
        ensures
            outcome(r) == bias_shape_result(*self, shape@),
    {
        let shared: bool = shape.len() == 1 && shape[0] == self.n;
        let batched: bool = shape.len() == 2 && shape[0] == self.batch && shape[1] == self.n;
        proof {
            assert(shared ==> shape@ =~= seq![self.n]);
            assert(batched ==> shape@ =~= seq![self.batch, self.n]);
        }
        if !shared && !batched {
            let none: [u32; 0] = [];
            assert(none@ =~= Seq::<u32>::empty());
            return Err(
                Error::with_shapes(
                    Refusal::BiasShape { batch: self.batch, n: self.n },
                    shape,
                    none.as_slice(),
                ),
            );
        }
        Ok(())
    }

    /// Resolve three raw shapes of f32 tensors.
    pub fn from_shapes(a: &[u32], b: &[u32], c: &[u32]) -> (r: Result<Self, Error>)
        ensures
            outcome(r) == resolve_raw(a@, b@, c@),
    {
        let a: MatrixShape = match MatrixShape::from_tensor_shape(a) {
            Ok(s) => s,
            Err(e) => return Err(e),
        };
        let b: MatrixShape = match MatrixShape::from_tensor_shape(b) {
            Ok(s) => s,
            Err(e) => return Err(e),
        };
        let c: MatrixShape = match MatrixShape::from_tensor_shape(c) {
            Ok(s) => s,
            Err(e) => return Err(e),
        };
        ResolvedMatmul::from_matrix_shapes(a, b, c)
    }

    fn from_matrix_shapes(a: MatrixShape, b: MatrixShape, c: MatrixShape) -> (r: Result<
        Self,
        Error,
    >)
        ensures
            outcome(r) == resolve_shapes(a, b, c),
    {
        if let Err(e) = ensure_dim_eq(DimName::AK, a.cols, DimName::BK, b.rows) {
            return Err(e);
        }
        if let Err(e) = ensure_dim_eq(DimName::AM, a.rows, DimName::CM, c.rows) {
            return Err(e);
        }
        if let Err(e) = ensure_dim_eq(DimName::BN, b.cols, DimName::CN, c.cols) {
            return Err(e);
        }
        if let Err(e) = ensure_broadcastable(Role::A, a.batch, c.batch) {
            return Err(e);
        }
        if let Err(e) = ensure_broadcastable(Role::B, b.batch, c.batch) {
            return Err(e);
        }
        let batch_stride_a: u32 = match a.batch_stride(Role::A) {
            Ok(s) => s,
            Err(e) => return Err(e),
        };
        let batch_stride_b: u32 = match b.batch_stride(Role::B) {
            Ok(s) => s,
            Err(e) => return Err(e),
        };
        let batch_stride_c: u32 = match c.batch_stride(Role::C) {
            Ok(s) => s,
            Err(e) => return Err(e),
        };
        let total_flops: u64 = match checked_flops(c.batch, a.rows, b.cols, a.cols) {
            Ok(flops) => flops,
            Err(e) => return Err(e),
        };
        Ok(
            ResolvedMatmul {
                m: a.rows,
                n: b.cols,
                k: a.cols,
                batch: c.batch,
                batch_stride_a,
                batch_stride_b,
                batch_stride_c,
                total_flops,
                b_f16: false,
                a_f16: false,
                packed_b: false,
            },
        )
    }

    /// The push constants of a plain dispatch.
    pub open spec fn push_of(
        self,
        flags: u32,
        alpha: Scalar,
        a_ptr: u64,
        b_ptr: u64,
        c_ptr: u64,
    ) -> MatmulPushConstants {
        MatmulPushConstants {
            m: self.m,
            n: self.n,
            k: self.k,
            batch_stride_a: self.batch_stride_a,
            batch_stride_b: self.batch_stride_b,
            batch_stride_c: self.batch_stride_c,
            flags,
            alpha,
            a_ptr,
            b_ptr,
            c_ptr,
            d_ptr: 0,
            bias_ptr: 0,
            beta: Scalar::zero(),
            bias_batch_stride: 0,
            store_pos_base: 0,
            store_pos_scale: 0,
            store_stride_head: 0,
            store_stride_dim: 0,
            store_head_dim: 0,
            store_pos_ptr: 0,
            store_table_ptr: 0,
            store_dst_ptr: 0,
        }
    }

    fn push_with_flags(
        &self,
        flags: u32,
        alpha: Scalar,
        a_ptr: u64,
        b_ptr: u64,
        c_ptr: u64,
    ) -> (r: MatmulPushConstants)
        ensures
            r == self.push_of(flags, alpha, a_ptr, b_ptr, c_ptr),
    {
        MatmulPushConstants {
            m: self.m,
            n: self.n,
            k: self.k,
            batch_stride_a: self.batch_stride_a,
            batch_stride_b: self.batch_stride_b,
            batch_stride_c: self.batch_stride_c,
            flags,
            alpha,
            a_ptr,
            b_ptr,
            c_ptr,
            d_ptr: 0,
            bias_ptr: 0,
            beta: Scalar::zero(),
            bias_batch_stride: 0,
            store_pos_base: 0,
            store_pos_scale: 0,
            store_stride_head: 0,
            store_stride_dim: 0,
            store_head_dim: 0,
            store_pos_ptr: 0,
            store_table_ptr: 0,
            store_dst_ptr: 0,
        }
    }

    /// Push constants of a dispatch; bit 0 of `flags` says whether it
    /// accumulates.
    pub fn push_constants(
        &self,
        alpha: Scalar,
        accumulate: bool,
        a_ptr: u64,
        b_ptr: u64,
        c_ptr: u64,
    ) -> (r: MatmulPushConstants)
        ensures
            r == self.push_of(if accumulate { 1 } else { 0 }, alpha, a_ptr, b_ptr, c_ptr),
    {
        self.push_with_flags(if accumulate { 1 } else { 0 }, alpha, a_ptr, b_ptr, c_ptr)
    }

    /// Push constants for the split-K kernel: bits 16..31 of `flags` carry
    /// the number of splits, and the accumulate bit stays clear.
    pub fn split_k_push_constants(
        &self,
        alpha: Scalar,
        a_ptr: u64,
        b_ptr: u64,
        c_ptr: u64,
        num_k_splits: u32,
    ) -> (r: MatmulPushConstants)
        requires
            1 <= num_k_splits <= 0xFFFF,
        ensures
            r == self.push_of((num_k_splits * 0x1_0000) as u32, alpha, a_ptr, b_ptr, c_ptr),
    {
        self.push_with_flags(num_k_splits * 0x1_0000, alpha, a_ptr, b_ptr, c_ptr)
    }
}

/// Whether two shapes are the same.
pub fn same_shape(a: &[u32], b: &[u32]) -> (r: bool)
    ensures
        r == (a@ == b@),
{
    if a.len() != b.len() {
        return false;
    }
    let mut i: usize = 0;
    while i < a.len()
        invariant
            i <= a@.len(),
            a@.len() == b@.len(),
            forall|j: int| 0 <= j < i ==> a@[j] == b@[j],
        decreases a.len() - i,
    {
        if a[i] != b[i] {
            return false;
        }
        i = i + 1;
    }
    assert(a@ =~= b@);
    true
}

/// The work of a whole submission.
pub fn total_flops(resolved: &[ResolvedMatmul]) -> (r: Result<u64, Error>)
    ensures
        outcome(r) == (if flops_sum(resolved@) > u64::MAX {
            Err(refused(Refusal::TotalFlopOverflow))
        } else {
            Ok(flops_sum(resolved@) as u64)
        }),
{
    let mut sum: u64 = 0;
    let mut i: usize = 0;
    while i < resolved.len()
        invariant
            i <= resolved@.len(),
            sum == flops_sum(resolved@.take(i as int)),
        decreases resolved.len() - i,
    {
        proof {
            let next = resolved@.take(i + 1);
            assert(next.drop_last() =~= resolved@.take(i as int));
            assert(next.last() == resolved@[i as int]);
            lemma_flops_sum_grows(resolved@, i + 1, resolved@.len() as int);
            assert(resolved@.take(resolved@.len() as int) =~= resolved@);
        }
        match sum.checked_add(resolved[i].total_flops) {
            Some(s) => {
                sum = s;
            }
            None => return Err(Error::new(Refusal::TotalFlopOverflow)),
        }
        i = i + 1;
    }
    assert(resolved@.take(i as int) =~= resolved@);
    Ok(sum)
}

proof fn lemma_flops_sum_grows(resolved: Seq<ResolvedMatmul>, i: int, j: int)
    requires
        0 <= i <= j <= resolved.len(),
    ensures
        flops_sum(resolved.take(i)) <= flops_sum(resolved.take(j)),
    decreases j - i,
{
    if i < j {
        lemma_flops_sum_grows(resolved, i, j - 1);
        assert(resolved.take(j).drop_last() =~= resolved.take(j - 1));
    }
}

/// Whatever resolves is addressable: the extents are non-zero, every operand
/// holds at most 2^32 elements, broadcast operands have a zero stride, and
/// the work is the plain product.
pub proof fn resolved_is_addressable(a: Seq<u32>, b: Seq<u32>, c: Seq<u32>)
    requires
        resolve_raw(a, b, c) is Ok,
    ensures
        ({
            let dims = resolve_raw(a, b, c)->Ok_0;
            let sa = MatrixShape::of_shape(a)->Ok_0;
            let sb = MatrixShape::of_shape(b)->Ok_0;
            let sc = MatrixShape::of_shape(c)->Ok_0;
            &&& dims.m > 0 && dims.n > 0 && dims.k > 0 && dims.batch > 0
            &&& sa.batch * (dims.m * dims.k) <= 0x1_0000_0000
            &&& sb.batch * (dims.k * dims.n) <= 0x1_0000_0000
            &&& dims.batch * (dims.m * dims.n) <= 0x1_0000_0000
            &&& dims.batch_stride_a == (if sa.batch == 1 { 0 } else { dims.m * dims.k })
            &&& dims.batch_stride_b == (if sb.batch == 1 { 0 } else { dims.k * dims.n })
            &&& dims.batch_stride_c == (if sc.batch == 1 { 0 } else { dims.m * dims.n })
            &&& dims.total_flops == flops_of(
                dims.batch as int,
                dims.m as int,
                dims.n as int,
                dims.k as int,
            )
        }),
{
    let sa = MatrixShape::of_shape(a)->Ok_0;
    let sb = MatrixShape::of_shape(b)->Ok_0;
    let sc = MatrixShape::of_shape(c)->Ok_0;
    lemma_flops(sc.batch, sa.rows, sb.cols, sa.cols);
    assert(sa.rows * sa.cols >= 0 && sb.rows * sb.cols >= 0 && sc.rows * sc.cols >= 0)
        by (nonlinear_arith)
        requires
            sa.rows >= 0,
            sa.cols >= 0,
            sb.rows >= 0,
            sb.cols >= 0,
            sc.rows >= 0,
            sc.cols >= 0,
    ;
}

/// The element that a fused scatter writes for output column `c`.
pub open spec fn store_element(store: MatmulStore, c: int) -> int {
    let desc = store.desc_of();
    desc.pos_base * desc.pos_scale + (c / desc.head_dim as int) * desc.stride_head + (c
        % desc.head_dim as int) * desc.stride_dim
}

/// The row of the rotation table that a fused rotation reads for output
/// column `c`: a cosine and a sine.
pub open spec fn store_angle(store: MatmulStore, c: int) -> int {
    let desc = store.desc_of();
    desc.pos_base * (desc.head_dim as int / 2) + (c % desc.head_dim as int) / 2
}

/// A fused store that is not refused writes every column inside its
/// destination and reads every angle inside its table.
pub proof fn fused_store_stays_inside(dims: ResolvedMatmul, op: MatmulOp, c: int)
    requires
        fusion_result(dims, op) is Ok,
        !(op.store is Absent),
        0 <= c < dims.n,
    ensures
        op.store.dst_of() is Some ==> 0 <= store_element(op.store, c) < op.store.dst_of()->0@.len(),
        op.store.table_of() is Some ==> 0 <= 2 * store_angle(op.store, c) && 2 * store_angle(
            op.store,
            c,
        ) + 1 < op.store.table_of()->0@.len(),
{
    let desc = op.store.desc_of();
    let d = desc.head_dim as int;
    let heads = dims.n as int / d;
    let head = c / d;
    let lane = c % d;
    vstd::arithmetic::div_mod::lemma_fundamental_div_mod(dims.n as int, d);
    vstd::arithmetic::div_mod::lemma_fundamental_div_mod(c, d);
    vstd::arithmetic::div_mod::lemma_mod_bound(c, d);
    vstd::arithmetic::div_mod::lemma_div_pos_is_pos(c, d);
    assert(head <= heads - 1) by (nonlinear_arith)
        requires
            c < dims.n,
            dims.n == d * heads,
            c == d * head + lane,
            0 <= lane,
            d > 0,
    ;
    assert(0 <= head * desc.stride_head <= (heads - 1) * desc.stride_head) by (nonlinear_arith)
        requires
            0 <= head <= heads - 1,
            desc.stride_head >= 0,
    ;
    assert(0 <= lane * desc.stride_dim <= (d - 1) * desc.stride_dim) by (nonlinear_arith)
        requires
            0 <= lane <= d - 1,
            desc.stride_dim >= 0,
    ;
    lemma_mul_u32(desc.pos_base as int, desc.pos_scale as int);
    let p = desc.pos_base as int;
    let half = d / 2;
    assert(d == 2 * half);
    assert(0 <= p * half && 2 * (p * half) + d == (p + 1) * d) by (nonlinear_arith)
        requires
            d == 2 * half,
            p >= 0,
            half >= 0,
    ;
    assert(0 <= lane / 2 && 2 * (lane / 2) + 1 < d);
}

} // verus!
