//! Ownership checks, made before any operand's address is used.

use crate::context::VulkanContext;
use crate::error::{outcome, refused, Error, ErrorView, Refusal, Role};
use crate::executor::plan::Executor;
use crate::matmul::api::{MatmulCall, MatmulOp};
use crate::tensor::{Tensor, TensorView};
use vstd::prelude::*;

verus! {

/// A tensor has to live on the device that the request runs on.
pub open spec fn context_result(ctx: VulkanContext, tensor: TensorView, role: Role) -> Result<
    (),
    ErrorView,
> {
    if tensor.buffer.context != ctx.id {
        Err(refused(Refusal::ForeignTensor { role }))
    } else {
        Ok(())
    }
}

/// The operands of a call have to live on the device, and C must not share
/// its buffer with A or B.
pub open spec fn call_context_result(ctx: VulkanContext, call: MatmulCall) -> Result<(), ErrorView> {
    if let Err(e) = context_result(ctx, call.a@, Role::A) {
        Err(e)
    } else if let Err(e) = context_result(ctx, call.b@, Role::B) {
        Err(e)
    } else if let Err(e) = context_result(ctx, call.c@, Role::C) {
        Err(e)
    } else if call.c@.buffer.handle == call.a@.buffer.handle || call.c@.buffer.handle
        == call.b@.buffer.handle {
        Err(refused(Refusal::AliasedOutput))
    } else {
        Ok(())
    }
}

/// The operands of an operation have to live on the device.
pub open spec fn op_context_result(ctx: VulkanContext, op: MatmulOp) -> Result<(), ErrorView> {
    if let Err(e) = call_context_result(ctx, op.call) {
        Err(e)
    } else if op.epilogue.bias is Some && context_result(ctx, op.epilogue.bias->0@, Role::Bias) is Err {
        context_result(ctx, op.epilogue.bias->0@, Role::Bias)
    } else if op.epilogue.d_of() is Some && context_result(ctx, op.epilogue.d_of()->0@, Role::D) is Err {
        context_result(ctx, op.epilogue.d_of()->0@, Role::D)
    } else {
        Ok(())
    }
}

impl Executor {
    /// A tensor has to live on this executor's device.
    pub fn validate_tensor_context(&self, tensor: &Tensor, role: Role) -> (r: Result<(), Error>)
        ensures
            outcome(r) == context_result(self@.ctx, tensor@, role),
    {
        if !tensor.belongs_to(self.context()) {
            return Err(Error::new(Refusal::ForeignTensor { role }));
        }
        Ok(())
    }

    /// The operands of a call have to live on this executor's device, and C
    /// must not share its buffer with A or B.
    pub fn validate_call_context(&self, call: &MatmulCall<'_>) -> (r: Result<(), Error>)
        ensures
            outcome(r) == call_context_result(self@.ctx, *call),
    {
        if let Err(e) = self.validate_tensor_context(call.a, Role::A) {
            return Err(e);
        }
        if let Err(e) = self.validate_tensor_context(call.b, Role::B) {
            return Err(e);
        }
        if let Err(e) = self.validate_tensor_context(call.c, Role::C) {
            return Err(e);
        }
        if call.c.raw_buffer() == call.a.raw_buffer() || call.c.raw_buffer()
            == call.b.raw_buffer() {
            return Err(Error::new(Refusal::AliasedOutput));
        }
        Ok(())
    }

    /// The operands of an operation have to live on this executor's device.
    pub fn validate_op_context(&self, op: &MatmulOp<'_>) -> (r: Result<(), Error>)
        ensures
            outcome(r) == op_context_result(self@.ctx, *op),
    {
        if let Err(e) = self.validate_call_context(&op.call) {
            return Err(e);
        }
        if let Some(bias) = op.epilogue.bias {
            if let Err(e) = self.validate_tensor_context(bias, Role::Bias) {
                return Err(e);
            }
        }
        if let Some(d) = op.epilogue.d_tensor() {
            if let Err(e) = self.validate_tensor_context(d, Role::D) {
                return Err(e);
            }
        }
        Ok(())
    }
}

} // verus!
