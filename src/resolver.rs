use vstd::prelude::*;
use crate::descriptor::bits_of;
use crate::error::ProtocolError;

verus! {

/// Where a guest address points, checked against the current memory size:
/// `0` is null, and anything at or past the end is out of bounds.
pub open spec fn resolved(addr: i32, memory_size: nat) -> Result<nat, ProtocolError> {
    if bits_of(addr) == 0 {
        Err(ProtocolError::NullPointer)
    } else if bits_of(addr) >= memory_size {
        Err(ProtocolError::OutOfBounds)
    } else {
        Ok(bits_of(addr))
    }
}

/// Like `resolved`, and the whole span of `len` bytes from the address must lie in memory.
pub open spec fn resolved_span(addr: i32, len: i32, memory_size: nat) -> Result<
    nat,
    ProtocolError,
> {
    match resolved(addr, memory_size) {
        Err(e) => Err(e),
        Ok(a) => if len < 0 || a + len > memory_size {
            Err(ProtocolError::OutOfBounds)
        } else {
            Ok(a)
        },
    }
}

/// Turns a guest address into an index into linear memory of `memory_size` bytes.
/// The address is read as an unsigned 32-bit value.
pub fn convert_wasm_pointer(offset: i32, memory_size: usize) -> (r: Result<usize, ProtocolError>)
    ensures
        match r {
            Ok(a) => resolved(offset, memory_size as nat) == Ok::<nat, ProtocolError>(a as nat),
            Err(e) => resolved(offset, memory_size as nat) == Err::<nat, ProtocolError>(e),
        },
{
    let a: u64 = if offset >= 0 {
        offset as u64
    } else {
        (offset as i64 + 0x1_0000_0000i64) as u64
    };
    if a == 0 {
        Err(ProtocolError::NullPointer)
    } else if a as u128 >= memory_size as u128 {
        Err(ProtocolError::OutOfBounds)
    } else {
        Ok(a as usize)
    }
}

/// Resolves a span of `len` bytes at a guest address: the start must resolve, `len` must
/// not be negative, and the span must end at or before the end of memory.
pub fn resolve_span(offset: i32, len: i32, memory_size: usize) -> (r: Result<usize, ProtocolError>)
    ensures
        match r {
            Ok(a) => resolved_span(offset, len, memory_size as nat) == Ok::<nat, ProtocolError>(a as nat),
            Err(e) => resolved_span(offset, len, memory_size as nat) == Err::<nat, ProtocolError>(e),
        },
{
    match convert_wasm_pointer(offset, memory_size) {
        Err(e) => Err(e),
        Ok(a) => {
            if len < 0 || len as usize > memory_size - a {
                Err(ProtocolError::OutOfBounds)
            } else {
                Ok(a)
            }
        },
    }
}

/// The null address is rejected, whether or not a length comes with it.
pub proof fn lemma_null_rejected(len: i32, memory_size: nat)
    ensures
        resolved(0, memory_size) == Err::<nat, ProtocolError>(ProtocolError::NullPointer),
        resolved_span(0, len, memory_size) == Err::<nat, ProtocolError>(ProtocolError::NullPointer),
{
}

/// An address equal to the memory size is one past the end, and is rejected.
pub proof fn lemma_end_rejected(addr: i32, len: i32, memory_size: nat)
    requires
        0 < memory_size,
        bits_of(addr) == memory_size,
    ensures
        resolved(addr, memory_size) == Err::<nat, ProtocolError>(ProtocolError::OutOfBounds),
        resolved_span(addr, len, memory_size) == Err::<nat, ProtocolError>(ProtocolError::OutOfBounds),
{
}

/// A span whose start lies in memory but whose end runs past it is rejected.
pub proof fn lemma_span_overrun_rejected(addr: i32, len: i32, memory_size: nat)
    requires
        resolved(addr, memory_size) is Ok,
        bits_of(addr) + len > memory_size,
    ensures
        resolved_span(addr, len, memory_size) == Err::<nat, ProtocolError>(ProtocolError::OutOfBounds),
{
}

} // verus!
