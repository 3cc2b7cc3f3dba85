//! Guest linear memory, read and written by the host under bounds checks.

use vstd::prelude::*;

verus! {

/// `wasmi::MemoryRef`, the handle to a guest's memory, carried as an opaque
/// value.
#[verifier::external_type_specification]
#[verifier::external_body]
pub struct ExMemoryRef(wasmi::MemoryRef);

/// The bytes that a guest memory holds, from address 0 to the end of what the
/// guest can address. Bytes that were never written are zero.
pub uninterp spec fn guest_bytes(memory: wasmi::MemoryRef) -> Seq<u8>;

/// Whether `length` bytes starting at `offset` lie inside `bytes`.
pub open spec fn in_bounds(bytes: Seq<u8>, offset: int, length: int) -> bool {
    0 <= offset && 0 <= length && offset + length <= bytes.len()
}

/// `bytes` with `data` written over it from `offset` on.
pub open spec fn overwritten(bytes: Seq<u8>, offset: int, data: Seq<u8>) -> Seq<u8> {
    Seq::new(
        bytes.len(),
        |at: int|
            if offset <= at < offset + data.len() {
                data[at - offset]
            } else {
                bytes[at]
            },
    )
}

/// `wasmi::MemoryInstance::get`: copies `size` bytes out of the memory. The
/// outside function checks that the region ends inside the memory's current
/// size and returns an error otherwise; the error is mapped to `None`.
#[verifier::external_body]
fn memory_get(memory: &wasmi::MemoryRef, offset: u32, size: usize) -> (bytes: Option<Vec<u8>>)
    ensures
        bytes is Some <==> in_bounds(guest_bytes(*memory), offset as int, size as int),
        bytes matches Some(copy) ==> copy@ == guest_bytes(*memory).subrange(
            offset as int,
            offset + size,
        ),
{
    memory.get(offset, size).ok()
}

/// `wasmi::MemoryInstance::set`: copies `data` into the memory at `offset`.
/// The outside function makes the same bounds check as `get` and writes
/// nothing where it fails. The memory sits behind a shared handle: what is
/// said of it after the call holds while no other holder writes to it.
#[verifier::external_body]
fn memory_set(memory: &mut wasmi::MemoryRef, offset: u32, data: &[u8]) -> (written: bool)
    ensures
        written == in_bounds(guest_bytes(*old(memory)), offset as int, data@.len() as int),
        guest_bytes(*final(memory)) == if written {
            overwritten(guest_bytes(*old(memory)), offset as int, data@)
        } else {
            guest_bytes(*old(memory))
        },
{
    memory.set(offset, data).is_ok()
}

/// The linear memory of one guest instance.
pub struct GuestMemory {
    memory: wasmi::MemoryRef,
}

impl View for GuestMemory {
    type V = Seq<u8>;

    closed spec fn view(&self) -> Seq<u8> {
        guest_bytes(self.memory)
    }
}

impl GuestMemory {
    /// Takes over the handle to a guest's memory.
    pub fn new(memory: wasmi::MemoryRef) -> (guest: GuestMemory)
        ensures
            guest@ == guest_bytes(memory),
    {
        GuestMemory { memory }
    }

    /// Reads `length` bytes at `offset`, or nothing where the range leaves
    /// the memory.
    pub fn read(&self, offset: u32, length: u32) -> (bytes: Option<Vec<u8>>)
        ensures
            bytes is Some <==> in_bounds(self@, offset as int, length as int),
            bytes matches Some(copy) ==> copy@ == self@.subrange(offset as int, offset + length),
    {
        memory_get(&self.memory, offset, length as usize)
    }

    /// Writes `data` at `offset`. Where it does not fit, nothing is written
    /// and the result is `false`.
    pub fn write(&mut self, offset: u32, data: &[u8]) -> (written: bool)
        ensures
            written == in_bounds(old(self)@, offset as int, data@.len() as int),
            final(self)@ == if written {
                overwritten(old(self)@, offset as int, data@)
            } else {
                old(self)@
            },
    {
        memory_set(&mut self.memory, offset, data)
    }
}

} // verus!
