use vstd::prelude::*;
use crate::codec::{decode_payload, decoded_text};
use crate::descriptor::{bits_of, descriptor_at, PluginCollectData};
use crate::error::ProtocolError;
use crate::resolver::{resolve_span, resolved, resolved_span};

verus! {

/// The descriptor at a guest address of `mem`, if its eight bytes lie in memory.
pub open spec fn descriptor_read(mem: Seq<u8>, addr: i32) -> Result<PluginCollectData, ProtocolError> {
    match resolved_span(addr, 8, mem.len()) {
        Ok(a) => Ok(descriptor_at(mem, a as int)),
        Err(e) => Err(e),
    }
}

/// The payload bytes that `d` refers to in `mem`, if the whole span lies in memory.
pub open spec fn payload_of(mem: Seq<u8>, d: PluginCollectData) -> Result<Seq<u8>, ProtocolError> {
    match resolved_span(d.offset, d.len, mem.len()) {
        Ok(a) => Ok(mem.subrange(a as int, a + d.len)),
        Err(e) => Err(e),
    }
}

/// What the host makes of an entry point's result `addr` read against memory `mem`.
pub open spec fn host_read(mem: Seq<u8>, addr: i32) -> Result<Seq<char>, ProtocolError> {
    if addr == 0 {
        Err(ProtocolError::NullResult)
    } else {
        match descriptor_read(mem, addr) {
            Err(e) => Err(e),
            Ok(d) => match payload_of(mem, d) {
                Err(e) => Err(e),
                Ok(view) => match decoded_text(view) {
                    Some(t) => Ok(t),
                    None => Err(ProtocolError::DecodeFailure),
                },
            },
        }
    }
}

/// A null entry-point result, and a descriptor whose payload address is null,
/// are both rejected.
pub proof fn lemma_null_never_read(mem: Seq<u8>, d: PluginCollectData)
    requires
        d.offset == 0,
    ensures
        host_read(mem, 0) == Err::<Seq<char>, ProtocolError>(ProtocolError::NullResult),
        payload_of(mem, d) == Err::<Seq<u8>, ProtocolError>(ProtocolError::NullPointer),
{
}

/// A descriptor whose offset is in bounds but whose payload runs past the end of
/// memory is rejected, and so is the whole read through it.
pub proof fn lemma_payload_overrun_rejected(mem: Seq<u8>, addr: i32)
    requires
        descriptor_read(mem, addr) is Ok,
        resolved(descriptor_read(mem, addr)->Ok_0.offset, mem.len()) is Ok,
        bits_of(descriptor_read(mem, addr)->Ok_0.offset) + descriptor_read(mem, addr)->Ok_0.len
            > mem.len(),
    ensures
        payload_of(mem, descriptor_read(mem, addr)->Ok_0) == Err::<Seq<u8>, ProtocolError>(
            ProtocolError::OutOfBounds,
        ),
        addr != 0 ==> host_read(mem, addr) == Err::<Seq<char>, ProtocolError>(
            ProtocolError::OutOfBounds,
        ),
{
}

/// For any payload of `n` bytes (none included) written at a valid offset `o` with
/// `o + n` within memory, the reader returns exactly those bytes, and decoding
/// them gives what the encoding was made from.
pub proof fn lemma_reader_recovers(mem: Seq<u8>, d: PluginCollectData, logical: Seq<u8>)
    requires
        0 < d.offset < mem.len(),
        0 <= d.len,
        d.offset + d.len <= mem.len(),
        mem.subrange(d.offset as int, d.offset + d.len) == crate::codec::b64_encoded(logical),
        crate::codec::b64_decoded(crate::codec::b64_encoded(logical)) == Some(logical),
    ensures
        payload_of(mem, d) == Ok::<Seq<u8>, ProtocolError>(crate::codec::b64_encoded(logical)),
        crate::codec::b64_decoded(payload_of(mem, d)->Ok_0) == Some(logical),
{
}

/// Reads the descriptor at guest address `addr`.
pub fn read_descriptor(mem: &[u8], addr: i32) -> (r: Result<PluginCollectData, ProtocolError>)
    ensures
        r == descriptor_read(mem@, addr),
{
    match resolve_span(addr, 8, mem.len()) {
        Err(e) => Err(e),
        Ok(a) => Ok(PluginCollectData::read_at(mem, a)),
    }
}

/// Copies out the payload bytes that `d` refers to, after checking the whole span.
pub fn payload_view(mem: &[u8], d: &PluginCollectData) -> (r: Result<Vec<u8>, ProtocolError>)
    ensures
        match r {
            Ok(v) => payload_of(mem@, *d) == Ok::<Seq<u8>, ProtocolError>(v@),
            Err(e) => payload_of(mem@, *d) == Err::<Seq<u8>, ProtocolError>(e),
        },
{
    match resolve_span(d.offset, d.len, mem.len()) {
        Err(e) => Err(e),
        Ok(a) => {
            let end: usize = a + d.len as usize;
            let mut out: Vec<u8> = Vec::new();
            let mut i: usize = a;
            while i < end
                invariant
                    a <= i <= end,
                    end <= mem@.len(),
                    end == a + d.len,
                    out@ == mem@.subrange(a as int, i as int),
                decreases end - i,
            {
                out.push(mem[i]);
                i = i + 1;
                assert(out@ =~= mem@.subrange(a as int, i as int));
            }
            Ok(out)
        },
    }
}

/// Reads the text that a guest returned through the descriptor at `addr`:
/// the null sentinel, an out-of-range descriptor or payload span, and a payload
/// that does not decode are each reported.
pub fn read_collect_result(mem: &[u8], addr: i32) -> (r: Result<String, ProtocolError>)
    ensures
        match r {
            Ok(s) => host_read(mem@, addr) == Ok::<Seq<char>, ProtocolError>(s@),
            Err(e) => host_read(mem@, addr) == Err::<Seq<char>, ProtocolError>(e),
        },
{
    if addr == 0 {
        return Err(ProtocolError::NullResult);
    }
    let d = match read_descriptor(mem, addr) {
        Ok(d) => d,
        Err(e) => return Err(e),
    };
    let view = match payload_view(mem, &d) {
        Ok(v) => v,
        Err(e) => return Err(e),
    };
    match decode_payload(view.as_slice()) {
        Some(s) => Ok(s),
        None => Err(ProtocolError::DecodeFailure),
    }
}

} // verus!
