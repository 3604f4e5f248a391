//! Host-visible numbers that recorded work reads and writes.

use crate::context::VulkanContext;
use crate::error::{copied, outcome, refused, Error, ErrorView, OpName, Refusal};
use crate::tensor::Buffer;
use vstd::prelude::*;

verus! {

/// Words to be written to the start of a host-visible buffer.
pub struct HostWrite {
    pub buffer: Buffer,
    pub words: Vec<u32>,
}

/// Words to be read from the start of a host-visible buffer.
#[derive(Copy, Clone, Debug, PartialEq, Eq, Structural)]
pub struct HostRead {
    pub buffer: Buffer,
    pub words: usize,
}

/// One host-visible word.
struct U32Cell {
    buffer: Buffer,
}

/// The bytes of a cell, where the device supports the addresses that shaders
/// reach it by.
pub fn cell_bytes(ctx: &VulkanContext, op: OpName) -> (r: Result<u64, Error>)
    ensures
        outcome(r) == (if ctx.buffer_device_address_enabled {
            Ok(4u64)
        } else {
            Err(refused(Refusal::CellNeedsAddresses { op }))
        }),
{
    if !ctx.buffer_device_address_enabled {
        return Err(Error::new(Refusal::CellNeedsAddresses { op }));
    }
    Ok(4)
}

impl U32Cell {
    fn set(&self, value: u32) -> (r: HostWrite)
        ensures
            r.buffer == self.buffer,
            r.words@ == seq![value],
    {
        let words: Vec<u32> = vec![value];
        assert(words@ =~= seq![value]);
        HostWrite { buffer: self.buffer, words }
    }

    fn read(&self) -> (r: HostRead)
        ensures
            r == (HostRead { buffer: self.buffer, words: 1 }),
    {
        HostRead { buffer: self.buffer, words: 1 }
    }

    fn device_address(&self) -> (r: u64)
        ensures
            r == self.buffer.address,
    {
        self.buffer.address
    }
}

/// A position that recorded work reads at execution time. Operations that
/// depend on the token position carry its address, so that writing a new
/// position between replays takes the place of recording again.
pub struct PosBuffer {
    cell: U32Cell,
}

impl PosBuffer {
    /// The buffer underneath.
    pub closed spec fn backing(&self) -> Buffer {
        self.cell.buffer
    }

    /// A cell over an allocation of [`cell_bytes`].
    pub fn over(buffer: Buffer) -> (r: Self)
        ensures
            r.backing() == buffer,
    {
        PosBuffer { cell: U32Cell { buffer } }
    }

    /// The write that sets the position for the next submission.
    pub fn set(&self, value: u32) -> (r: HostWrite)
        ensures
            r.buffer == self.backing(),
            r.words@ == seq![value],
    {
        self.cell.set(value)
    }

    /// The address that operations carry.
    pub fn device_address(&self) -> (r: u64)
        ensures
            r == self.backing().address,
    {
        self.cell.device_address()
    }
}

/// A word that shaders write and the host reads: the token that a greedy
/// sampler chose.
pub struct HostU32Buffer {
    cell: U32Cell,
}

impl HostU32Buffer {
    /// The buffer underneath.
    pub closed spec fn backing(&self) -> Buffer {
        self.cell.buffer
    }

    /// A cell over an allocation of [`cell_bytes`].
    pub fn over(buffer: Buffer) -> (r: Self)
        ensures
            r.backing() == buffer,
    {
        HostU32Buffer { cell: U32Cell { buffer } }
    }

    /// The read that fetches the current value, once the submission that
    /// writes it has completed.
    pub fn read(&self) -> (r: HostRead)
        ensures
            r == (HostRead { buffer: self.backing(), words: 1 }),
    {
        self.cell.read()
    }

    /// The write that seeds the cell.
    pub fn set(&self, value: u32) -> (r: HostWrite)
        ensures
            r.buffer == self.backing(),
            r.words@ == seq![value],
    {
        self.cell.set(value)
    }

    /// The address that operations carry.
    pub fn device_address(&self) -> (r: u64)
        ensures
            r == self.backing().address,
    {
        self.cell.device_address()
    }

    /// The buffer underneath.
    pub fn buffer(&self) -> (r: &Buffer)
        ensures
            *r == self.backing(),
    {
        &self.cell.buffer
    }
}

/// A host-visible list of token ids.
pub struct TokenIdBuffer {
    buffer: Buffer,
    cap: u32,
}

/// The bytes of a list of `cap` token ids.
pub open spec fn token_bytes_result(ctx: VulkanContext, cap: u32) -> Result<u64, ErrorView> {
    if cap == 0 {
        Err(refused(Refusal::TokenCapZero))
    } else if !ctx.buffer_device_address_enabled {
        Err(refused(Refusal::CellNeedsAddresses { op: OpName::CreateTokenIdBuffer }))
    } else {
        Ok((cap * 4) as u64)
    }
}

impl TokenIdBuffer {
    /// The buffer underneath.
    pub closed spec fn backing(&self) -> Buffer {
        self.buffer
    }

    /// The most ids that it holds.
    pub closed spec fn capacity(&self) -> u32 {
        self.cap
    }

    /// The bytes to allocate for a list of `cap` token ids.
    pub fn allocation_size(ctx: &VulkanContext, cap: u32) -> (r: Result<u64, Error>)
        ensures
            outcome(r) == token_bytes_result(*ctx, cap),
    {
        if cap == 0 {
            return Err(Error::new(Refusal::TokenCapZero));
        }
        if !ctx.buffer_device_address_enabled {
            return Err(
                Error::new(Refusal::CellNeedsAddresses { op: OpName::CreateTokenIdBuffer }),
            );
        }
        Ok(cap as u64 * 4)
    }

    /// A list over an allocation of [`TokenIdBuffer::allocation_size`].
    pub fn over(buffer: Buffer, cap: u32) -> (r: Self)
        ensures
            r.backing() == buffer,
            r.capacity() == cap,
    {
        TokenIdBuffer { buffer, cap }
    }

    /// The write that overwrites the first ids of the list.
    pub fn write(&self, ids: &[u32]) -> (r: Result<HostWrite, Error>)
        ensures
            r is Err <==> ids@.len() > self.capacity(),
            r matches Err(e) ==> e@ == refused(
                Refusal::TokenIdsOverCap { ids: ids@.len() as usize, cap: self.capacity() },
            ),
            r matches Ok(w) ==> w.buffer == self.backing() && w.words@ == ids@,
    {
        if ids.len() > self.cap as usize {
            return Err(
                Error::new(Refusal::TokenIdsOverCap { ids: ids.len(), cap: self.cap }),
            );
        }
        Ok(HostWrite { buffer: self.buffer, words: copied(ids) })
    }

    /// The address that operations carry.
    pub fn device_address(&self) -> (r: u64)
        ensures
            r == self.backing().address,
    {
        self.buffer.address
    }

    /// The most ids that it holds.
    pub fn cap(&self) -> (r: u32)
        ensures
            r == self.capacity(),
    {
        self.cap
    }

    /// The buffer underneath.
    pub fn buffer(&self) -> (r: &Buffer)
        ensures
            *r == self.backing(),
    {
        &self.buffer
    }
}

} // verus!
