//! Sizes of host transfers and of the buffers that serve them.

use crate::error::{outcome, refused, Error, ErrorView, OpName, Refusal, Role};
use crate::executor::plan::{Executor, ExecutorView};
use crate::executor::validation::context_result;
use crate::tensor::{allocation_covers_elements, allocation_result, Tensor, TensorView};
use vstd::prelude::*;

verus! {

/// A transfer must not exceed the tensor's buffer.
pub open spec fn transfer_result(op: OpName, size: u64, capacity: u64) -> Result<u64, ErrorView> {
    if size > capacity {
        Err(refused(Refusal::TransferTooLarge { op, size, capacity }))
    } else {
        Ok(size)
    }
}

/// A transfer must not exceed the tensor's buffer.
pub fn checked_transfer_size(op: OpName, size: u64, tensor: &Tensor) -> (r: Result<u64, Error>)
    ensures
        outcome(r) == transfer_result(op, size, tensor@.buffer.bytes),
{
    let capacity: u64 = tensor.size_bytes();
    if size > capacity {
        return Err(Error::new(Refusal::TransferTooLarge { op, size, capacity }));
    }
    Ok(size)
}

/// The bytes that a host slice of `len` numbers takes in the tensor's
/// storage, where they fit; nothing is transferred for an empty slice.
pub open spec fn transfer_plan(x: ExecutorView, op: OpName, role: Role, tensor: TensorView, len: usize) -> Result<
    Option<u64>,
    ErrorView,
> {
    let size = len * tensor.dtype.bytes();
    if let Err(e) = context_result(x.ctx, tensor, role) {
        Err(e)
    } else if len == 0 {
        Ok(None)
    } else if size > u64::MAX {
        Err(refused(Refusal::SliceTooLarge))
    } else {
        match transfer_result(op, size as u64, tensor.buffer.bytes) {
            Err(e) => Err(e),
            Ok(size) => Ok(Some(size)),
        }
    }
}

/// Whether a buffer has to be replaced to hold `needed` bytes: there is none,
/// or it is smaller.
pub fn needs_new_buffer(current: Option<u64>, needed: u64) -> (r: bool)
    ensures
        r == (match current {
            None => true,
            Some(bytes) => bytes < needed,
        }),
{
    match current {
        None => true,
        Some(bytes) => bytes < needed,
    }
}

impl Executor {
    /// Bytes to move from a host slice of `len` numbers to a tensor.
    pub fn plan_upload(&self, len: usize, dst: &Tensor) -> (r: Result<Option<u64>, Error>)
        ensures
            outcome(r) == transfer_plan(
                self@,
                OpName::Upload,
                Role::UploadDestination,
                dst@,
                len,
            ),
    {
        self.plan_transfer(OpName::Upload, Role::UploadDestination, dst, len)
    }

    /// Bytes to move from a tensor to a host slice of `len` numbers.
    pub fn plan_download(&self, src: &Tensor, len: usize) -> (r: Result<Option<u64>, Error>)
        ensures
            outcome(r) == transfer_plan(self@, OpName::Download, Role::DownloadSource, src@, len),
    {
        self.plan_transfer(OpName::Download, Role::DownloadSource, src, len)
    }

    fn plan_transfer(&self, op: OpName, role: Role, tensor: &Tensor, len: usize) -> (r: Result<
        Option<u64>,
        Error,
    >)
        ensures
            outcome(r) == transfer_plan(self@, op, role, tensor@, len),
    {
        if let Err(e) = self.validate_tensor_context(tensor, role) {
            return Err(e);
        }
        if len == 0 {
            return Ok(None);
        }
        let size: u64 = match (len as u64).checked_mul(tensor.dtype().size()) {
            Some(size) => size,
            None => return Err(Error::new(Refusal::SliceTooLarge)),
        };
        match checked_transfer_size(op, size, tensor) {
            Ok(size) => Ok(Some(size)),
            Err(e) => Err(e),
        }
    }
}

/// The descriptors of a slot: three per call.
pub fn slot_descriptors(max_calls: u32) -> (r: Result<u32, Error>)
    ensures
        outcome(r) == (if max_calls * 3 > u32::MAX {
            Err(refused(Refusal::DescriptorOverflow))
        } else {
            Ok((max_calls * 3) as u32)
        }),
{
    match max_calls.checked_mul(3) {
        Some(count) => Ok(count),
        None => Err(Error::new(Refusal::DescriptorOverflow)),
    }
}

/// A planned transfer moves as many bytes as the slice's numbers take in the
/// tensor's storage, and stays inside its buffer.
pub proof fn transfer_stays_inside(x: ExecutorView, op: OpName, role: Role, tensor: TensorView, len: usize)
    requires
        transfer_plan(x, op, role, tensor, len) matches Ok(Some(_)),
    ensures
        ({
            let size = (transfer_plan(x, op, role, tensor, len)->Ok_0)->0;
            size == len * tensor.dtype.bytes() && size <= tensor.buffer.bytes
        }),
{
}

/// Every slice up to a tensor's own length can be moved, where its buffer was
/// allocated for its shape.
pub proof fn whole_tensors_transfer(x: ExecutorView, op: OpName, role: Role, tensor: TensorView, len: usize)
    requires
        tensor.buffer.context == x.ctx.id,
        allocation_result(tensor.shape, tensor.dtype) == Ok::<u64, ErrorView>(tensor.buffer.bytes),
        0 < len <= tensor.len(),
    ensures
        transfer_plan(x, op, role, tensor, len) == Ok::<Option<u64>, ErrorView>(
            Some((len * tensor.dtype.bytes()) as u64),
        ),
{
    allocation_covers_elements(tensor.shape, tensor.dtype);
    let n = tensor.len() as int;
    assert(len * tensor.dtype.bytes() <= n * tensor.dtype.bytes()) by (nonlinear_arith)
        requires
            len <= n,
            tensor.dtype.bytes() >= 1,
    ;
}

} // verus!
