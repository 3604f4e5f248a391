//! Tensors: a shape over a device buffer.
//!
//! Storage is row-major and contiguous. Matrix multiplication takes rank 2
//! (`[M, K]`) or rank 3 (`[B, M, K]`); other operations take any non-empty
//! shape.

use crate::context::VulkanContext;
use crate::dtype::DType;
use crate::error::{copied, outcome, refused, Error, ErrorView, Refusal};
use crate::matmul::resolution::MatrixShape;

use vstd::prelude::*;

verus! {

/// A device allocation.
#[derive(Copy, Clone, Debug, PartialEq, Eq, Structural)]
pub struct Buffer {
    /// The context that it was allocated on.
    pub context: u64,
    /// Tells this allocation apart from every other one of the context.
    pub handle: u64,
    /// Its device address; 0 where addresses are disabled.
    pub address: u64,
    /// Its size.
    pub bytes: u64,
}

impl Buffer {
    /// Whether this buffer was allocated on `ctx`.
    pub fn belongs_to(&self, ctx: &VulkanContext) -> (r: bool)
        ensures
            r == (self.context == ctx.id),
    {
        self.context == ctx.id
    }
}

/// The number of elements of a tensor with this shape.
pub open spec fn shape_product(shape: Seq<u32>) -> nat
    decreases shape.len(),
{
    if shape.len() == 0 {
        1
    } else {
        shape_product(shape.drop_last()) * shape.last() as nat
    }
}

/// No dimension is zero.
pub open spec fn all_nonzero(shape: Seq<u32>) -> bool {
    forall|i: int| 0 <= i < shape.len() ==> #[trigger] shape[i] != 0
}

/// The element count of a shape, or why it has none. Dimensions are taken
/// from the left: the first that is zero or that carries the count past
/// `u64` is reported.
pub open spec fn numel_result(shape: Seq<u32>) -> Result<u64, ErrorView>
    decreases shape.len(),
{
    if shape.len() == 0 {
        Err(refused(Refusal::EmptyShape))
    } else if shape.len() > 1 && numel_result(shape.drop_last()) is Err {
        numel_result(shape.drop_last())
    } else if shape.last() == 0 {
        Err(refused(Refusal::ZeroDimension { index: (shape.len() - 1) as usize }))
    } else if shape_product(shape) > u64::MAX {
        Err(refused(Refusal::ElementCountOverflow))
    } else {
        Ok(shape_product(shape) as u64)
    }
}

/// A shape has an element count exactly when it is not empty, no dimension
/// is zero and the product of the dimensions fits `u64`.
pub proof fn lemma_numel_result(shape: Seq<u32>)
    ensures
        numel_result(shape) is Ok <==> shape.len() > 0 && all_nonzero(shape) && shape_product(shape)
            <= u64::MAX,
        numel_result(shape) is Ok ==> numel_result(shape)->Ok_0 == shape_product(shape),
        all_nonzero(shape) ==> shape_product(shape) >= 1,
    decreases shape.len(),
{
    if shape.len() > 0 {
        let front = shape.drop_last();
        lemma_numel_result(front);
        assert(all_nonzero(shape) <==> all_nonzero(front) && shape.last() != 0) by {
            assert forall|i: int| 0 <= i < shape.len() && all_nonzero(front) && shape.last()
                != 0 implies shape[i] != 0 by {
                if i < front.len() {
                    assert(front[i] != 0);
                }
            }
            if all_nonzero(shape) {
                assert forall|i: int| 0 <= i < front.len() implies front[i] != 0 by {
                    assert(shape[i] != 0);
                }
            }
        }
        if all_nonzero(shape) {
            assert(shape_product(shape) >= shape_product(front)) by (nonlinear_arith)
                requires
                    shape_product(shape) == shape_product(front) * shape.last() as nat,
                    shape.last() >= 1,
            ;
        }
    }
}

/// What a tensor is.
pub struct TensorView {
    pub shape: Seq<u32>,
    pub dtype: DType,
    pub buffer: Buffer,
}

impl TensorView {
    /// The number of elements.
    pub open spec fn len(self) -> nat {
        shape_product(self.shape)
    }
}

/// A shape over a device buffer.
pub struct Tensor {
    shape: Vec<u32>,
    dtype: DType,
    buffer: Buffer,
}

impl View for Tensor {
    type V = TensorView;

    closed spec fn view(&self) -> TensorView {
        TensorView { shape: self.shape@, dtype: self.dtype, buffer: self.buffer }
    }
}

/// The bytes that a device tensor takes, or why there can be none: the
/// elements, rounded up to sixteen bytes so that vectorized readers never
/// touch memory outside the allocation.
pub open spec fn allocation_result(shape: Seq<u32>, dtype: DType) -> Result<u64, ErrorView> {
    match numel_result(shape) {
        Err(e) => Err(e),
        Ok(n) => {
            let bytes = (n * dtype.bytes() + 15) / 16 * 16;
            if bytes > u64::MAX {
                Err(refused(Refusal::ByteSizeOverflow))
            } else {
                Ok(bytes as u64)
            }
        }
    }
}

/// The bytes that an f16 device tensor takes on a device.
pub open spec fn allocation_result_f16(ctx: VulkanContext, shape: Seq<u32>) -> Result<u64, ErrorView> {
    if !ctx.f16_storage_enabled {
        Err(refused(Refusal::NoF16Storage))
    } else {
        allocation_result(shape, DType::F16)
    }
}

impl TensorView {
    /// The buffer underneath has the size that the shape and the storage ask
    /// for.
    pub open spec fn allocated(self) -> bool {
        allocation_result(self.shape, self.dtype) == Ok::<u64, ErrorView>(self.buffer.bytes)
    }
}

/// The smallest multiple of `step` that is not below `value`, where it fits.
pub fn checked_next_multiple_of(value: u64, step: u64) -> (r: Option<u64>)
    requires
        step > 0,
    ensures
        r == (if (value + step - 1) / step as int * step > u64::MAX {
            None::<u64>
        } else {
            Some(((value + step - 1) / step as int * step) as u64)
        }),
{
    let rem: u64 = value % step;
    proof {
        let q = value as int / step as int;
        let s = step as int;
        let v = value as int;
        assert(v == q * s + rem) by {
            vstd::arithmetic::div_mod::lemma_fundamental_div_mod(v, s);
            assert(s * q == q * s) by (nonlinear_arith);
        }
        if rem == 0 {
            assert((v + s - 1) / s == q) by {
                vstd::arithmetic::div_mod::lemma_fundamental_div_mod_converse(v + s - 1, s, q, s - 1);
            }
        } else {
            assert((q + 1) * s == q * s + s) by (nonlinear_arith);
            assert((v + s - 1) / s == q + 1) by {
                vstd::arithmetic::div_mod::lemma_fundamental_div_mod_converse(
                    v + s - 1,
                    s,
                    q + 1,
                    rem - 1,
                );
            }
        }
    }
    if rem == 0 {
        Some(value)
    } else {
        value.checked_add(step - rem)
    }
}

impl Tensor {
    /// Every tensor has an element count, and the buffer underneath has the
    /// size that its shape and its storage ask for.
    #[verifier::type_invariant]
    pub closed spec fn well_formed(self) -> bool {
        &&& self.shape@.len() > 0
        &&& all_nonzero(self.shape@)
        &&& shape_product(self.shape@) <= u64::MAX
        &&& allocation_result(self.shape@, self.dtype) == Ok::<u64, ErrorView>(self.buffer.bytes)
    }

    /// Whether this tensor lives on `ctx`.
    pub fn belongs_to(&self, ctx: &VulkanContext) -> (r: bool)
        ensures
            r == (self@.buffer.context == ctx.id),
    {
        self.buffer.belongs_to(ctx)
    }

    /// Number of elements implied by `shape`. Every prefix of the shape has
    /// to have a count that fits.
    pub fn numel(shape: &[u32]) -> (r: u64)
        requires
            forall|i: int| 0 <= i <= shape@.len() ==> shape_product(#[trigger] shape@.take(i)) <= u64::MAX,
        ensures
            r == shape_product(shape@),
    {
        let mut product: u64 = 1;
        let mut i: usize = 0;
        while i < shape.len()
            invariant
                i <= shape@.len(),
                product == shape_product(shape@.take(i as int)),
                forall|i: int| 0 <= i <= shape@.len() ==> shape_product(#[trigger] shape@.take(i))
                    <= u64::MAX,
            decreases shape.len() - i,
        {
            proof {
                assert(shape@.take(i + 1).drop_last() =~= shape@.take(i as int));
                assert(shape@.take(i + 1).last() == shape@[i as int]);
            }
            product = product * shape[i] as u64;
            i = i + 1;
        }
        assert(shape@.take(i as int) =~= shape@);
        product
    }

    /// Number of elements implied by `shape`, with every reason for which
    /// there may be none.
    pub fn numel_checked(shape: &[u32]) -> (r: Result<u64, Error>)
        ensures
            outcome(r) == numel_result(shape@),
            r is Ok <==> shape@.len() > 0 && all_nonzero(shape@) && shape_product(shape@) <= u64::MAX,
            r is Ok ==> r->Ok_0 == shape_product(shape@),
    {
        proof {
            lemma_numel_result(shape@);
        }
        if shape.len() == 0 {
            return Err(Error::new(Refusal::EmptyShape));
        }
        let mut product: u64 = 1;
        let mut i: usize = 0;
        while i < shape.len()
            invariant
                i <= shape@.len(),
                product == shape_product(shape@.take(i as int)),
                i > 0 ==> numel_result(shape@.take(i as int)) is Ok,
            decreases shape.len() - i,
        {
            let ghost next = shape@.take(i + 1);
            proof {
                assert(next.drop_last() =~= shape@.take(i as int));
                assert(next.last() == shape@[i as int]);
                assert(shape@.take(shape@.len() as int) =~= shape@);
                lemma_numel_result(next);
                lemma_numel_result(shape@);
                lemma_numel_failure_stays(shape@, i + 1, shape@.len() as int);
            }
            let dim: u32 = shape[i];
            if dim == 0 {
                return Err(Error::new(Refusal::ZeroDimension { index: i }));
            }
            match product.checked_mul(dim as u64) {
                None => {
                    return Err(Error::new(Refusal::ElementCountOverflow));
                }
                Some(p) => {
                    product = p;
                }
            }
            i = i + 1;
        }
        assert(shape@.take(i as int) =~= shape@);
        Ok(product)
    }

    /// Bytes to allocate for a device tensor of this shape.
    pub fn allocation_size(shape: &[u32], dtype: DType) -> (r: Result<u64, Error>)
        ensures
            outcome(r) == allocation_result(shape@, dtype),
    {
        let n: u64 = match Tensor::numel_checked(shape) {
            Ok(n) => n,
            Err(e) => return Err(e),
        };
        match n.checked_mul(dtype.size()) {
            None => Err(Error::new(Refusal::ByteSizeOverflow)),
            Some(bytes) => match checked_next_multiple_of(bytes, 16) {
                None => Err(Error::new(Refusal::ByteSizeOverflow)),
                Some(size) => Ok(size),
            },
        }
    }

    /// Bytes to allocate for an f16 device tensor of this shape on `ctx`.
    pub fn allocation_size_f16(ctx: &VulkanContext, shape: &[u32]) -> (r: Result<u64, Error>)
        ensures
            outcome(r) == allocation_result_f16(*ctx, shape@),
    {
        if !ctx.f16_storage_enabled {
            return Err(Error::new(Refusal::NoF16Storage));
        }
        Tensor::allocation_size(shape, DType::F16)
    }

    /// An f32 tensor of this shape over a device allocation made for it: one
    /// of [`Tensor::allocation_size`] bytes. Its contents are whatever the
    /// allocation holds.
    pub fn uninit_device(shape: &[u32], buffer: Buffer) -> (r: Result<Tensor, Error>)
        requires
            allocation_result(shape@, DType::F32) matches Ok(bytes) ==> buffer.bytes == bytes,
        ensures
            r is Err <==> allocation_result(shape@, DType::F32) is Err,
            r matches Err(e) ==> allocation_result(shape@, DType::F32) == Err::<u64, ErrorView>(e@),
            r matches Ok(t) ==> t@ == (TensorView { shape: shape@, dtype: DType::F32, buffer }),
    {
        Tensor::uninit_device_with(shape, DType::F32, buffer)
    }

    /// An f16 tensor of this shape over a device allocation made for it on
    /// `ctx`, which has to support f16 storage: one of
    /// [`Tensor::allocation_size_f16`] bytes.
    pub fn uninit_device_f16(ctx: &VulkanContext, shape: &[u32], buffer: Buffer) -> (r: Result<
        Tensor,
        Error,
    >)
        requires
            allocation_result_f16(*ctx, shape@) matches Ok(bytes) ==> buffer.bytes == bytes,
        ensures
            r is Err <==> allocation_result_f16(*ctx, shape@) is Err,
            r matches Err(e) ==> allocation_result_f16(*ctx, shape@) == Err::<u64, ErrorView>(e@),
            r matches Ok(t) ==> t@ == (TensorView { shape: shape@, dtype: DType::F16, buffer }),
    {
        if !ctx.f16_storage_enabled {
            return Err(Error::new(Refusal::NoF16Storage));
        }
        Tensor::uninit_device_with(shape, DType::F16, buffer)
    }

    fn uninit_device_with(shape: &[u32], dtype: DType, buffer: Buffer) -> (r: Result<Tensor, Error>)
        requires
            allocation_result(shape@, dtype) matches Ok(bytes) ==> buffer.bytes == bytes,
        ensures
            r is Err <==> allocation_result(shape@, dtype) is Err,
            r matches Err(e) ==> allocation_result(shape@, dtype) == Err::<u64, ErrorView>(e@),
            r matches Ok(t) ==> t@ == (TensorView { shape: shape@, dtype, buffer }),
    {
        proof {
            lemma_numel_result(shape@);
        }
        match Tensor::allocation_size(shape, dtype) {
            Ok(_) => Ok(Tensor { shape: copied(shape), dtype, buffer }),
            Err(e) => Err(e),
        }
    }

    /// Storage element type.
    pub fn dtype(&self) -> (r: DType)
        ensures
            r == self@.dtype,
    {
        self.dtype
    }

    /// `(batch, rows, cols)` for rank-2 (`batch = 1`) or rank-3 shapes.
    pub fn as_3d(&self) -> (r: Result<(u32, u32, u32), Error>)
        ensures
            outcome(r) == match MatrixShape::of_shape(self@.shape) {
                Ok(s) => Ok((s.batch, s.rows, s.cols)),
                Err(e) => Err(e),
            },
    {
        match MatrixShape::from_tensor_shape(&self.shape) {
            Ok(s) => Ok((s.batch, s.rows, s.cols)),
            Err(e) => Err(e),
        }
    }

    /// The shape.
    pub fn shape(&self) -> (r: &[u32])
        ensures
            r@ == self@.shape,
    {
        self.shape.as_slice()
    }

    /// Number of dimensions.
    pub fn rank(&self) -> (r: usize)
        ensures
            r == self@.shape.len(),
    {
        self.shape.len()
    }

    /// Total element count. Never zero.
    pub fn len(&self) -> (r: u64)
        ensures
            r == self@.len(),
            r >= 1,
            self@.shape.len() > 0,
            all_nonzero(self@.shape),
    {
        proof {
            use_type_invariant(self);
            lemma_numel_result(self.shape@);
            assert forall|i: int| 0 <= i <= self.shape@.len() implies shape_product(
                #[trigger] self.shape@.take(i),
            ) <= u64::MAX by {
                lemma_prefix_product(self.shape@, i);
            }
        }
        Tensor::numel(&self.shape)
    }

    /// Always `false`: every dimension is non-zero.
    pub fn is_empty(&self) -> (r: bool)
        ensures
            r == (self@.len() == 0),
            !r,
    {
        proof {
            use_type_invariant(self);
            lemma_numel_result(self.shape@);
        }
        false
    }

    /// The handle of the buffer underneath.
    pub fn raw_buffer(&self) -> (r: u64)
        ensures
            r == self@.buffer.handle,
    {
        self.buffer.handle
    }

    /// The device address of the buffer underneath; 0 where addresses are
    /// disabled.
    pub fn device_address(&self) -> (r: u64)
        ensures
            r == self@.buffer.address,
    {
        self.buffer.address
    }

    /// The size of the buffer underneath: the smallest multiple of sixteen
    /// bytes that holds every element.
    pub fn size_bytes(&self) -> (r: u64)
        ensures
            r == self@.buffer.bytes,
            self@.allocated(),
            r % 16 == 0,
            self@.len() * self@.dtype.bytes() <= r < self@.len() * self@.dtype.bytes() + 16,
    {
        proof {
            use_type_invariant(self);
            allocation_covers_elements(self.shape@, self.dtype);
        }
        self.buffer.bytes
    }
}

/// A prefix that has no element count decides for the whole shape.
proof fn lemma_numel_failure_stays(shape: Seq<u32>, i: int, j: int)
    requires
        0 < i <= j <= shape.len(),
    ensures
        numel_result(shape.take(i)) is Err ==> numel_result(shape.take(j)) == numel_result(
            shape.take(i),
        ),
    decreases j - i,
{
    if i < j {
        lemma_numel_failure_stays(shape, i, j - 1);
        assert(shape.take(j).drop_last() =~= shape.take(j - 1));
    }
}

/// The product of a prefix of non-zero dimensions is at most the whole.
pub proof fn lemma_prefix_product(shape: Seq<u32>, i: int)
    requires
        all_nonzero(shape),
        0 <= i <= shape.len(),
    ensures
        shape_product(shape.take(i)) <= shape_product(shape),
    decreases shape.len() - i,
{
    if i == shape.len() {
        assert(shape.take(i) =~= shape);
    } else {
        lemma_prefix_product(shape, i + 1);
        let next = shape.take(i + 1);
        assert(next.drop_last() =~= shape.take(i));
        assert(next.last() == shape[i]);
        assert(shape_product(next) >= shape_product(shape.take(i))) by (nonlinear_arith)
            requires
                shape_product(next) == shape_product(shape.take(i)) * shape[i] as nat,
                shape[i] >= 1,
        ;
    }
}

/// An allocation holds every element, in whole blocks of sixteen bytes, and
/// wastes less than one block.
pub proof fn allocation_covers_elements(shape: Seq<u32>, dtype: DType)
    requires
        allocation_result(shape, dtype) is Ok,
    ensures
        ({
            let bytes = allocation_result(shape, dtype)->Ok_0;
            let elements = shape_product(shape) * dtype.bytes();
            &&& bytes % 16 == 0
            &&& elements <= bytes < elements + 16
            &&& bytes > 0
        }),
{
    lemma_numel_result(shape);
    let n = shape_product(shape) as int;
    assert(n > 0) by {
        lemma_positive_product(shape);
    }
    let elements = n * dtype.bytes();
    assert(elements >= n) by (nonlinear_arith)
        requires
            elements == n * dtype.bytes(),
            dtype.bytes() >= 1,
            n > 0,
    ;
}

/// The size of a tensor over an allocation made for it is the smallest
/// multiple of sixteen bytes that holds its elements, and every element lies
/// inside.
pub proof fn tensor_size_is_tight(tensor: TensorView, multiple: int, element: int)
    requires
        tensor.allocated(),
        multiple % 16 == 0,
        tensor.len() * tensor.dtype.bytes() <= multiple,
        0 <= element < tensor.len(),
    ensures
        tensor.buffer.bytes % 16 == 0,
        tensor.buffer.bytes <= multiple,
        (element + 1) * tensor.dtype.bytes() <= tensor.buffer.bytes,
{
    allocation_covers_elements(tensor.shape, tensor.dtype);
    let n = tensor.len() as int;
    assert((element + 1) * tensor.dtype.bytes() <= n * tensor.dtype.bytes()) by (nonlinear_arith)
        requires
            element + 1 <= n,
            tensor.dtype.bytes() >= 1,
    ;
}

proof fn lemma_positive_product(shape: Seq<u32>)
    requires
        all_nonzero(shape),
    ensures
        shape_product(shape) > 0,
    decreases shape.len(),
{
    if shape.len() > 0 {
        let front = shape.drop_last();
        assert forall|i: int| 0 <= i < front.len() implies #[trigger] front[i] != 0 by {
            assert(front[i] == shape[i]);
        }
        lemma_positive_product(front);
        assert(shape.last() != 0);
        assert(shape_product(front) * shape.last() as nat > 0) by (nonlinear_arith)
            requires
                shape_product(front) > 0,
                shape.last() > 0,
        ;
    }
}

} // verus!
