use vstd::prelude::*;
use std::collections::HashMap;
use crate::codec::{decoded_text, b64_decoded, b64_encoded, b64_len, encode_payload, req_data, req_text};
use crate::error::ProtocolError;
use crate::host::{descriptor_read, host_read, payload_of};
use crate::descriptor::{
    descriptor_at, descriptor_bytes, lemma_descriptor_round_trip, PluginCollectData,
    DESCRIPTOR_SIZE,
};

verus! {

broadcast use vstd::std_specs::hash::group_hash_axioms;

/// Largest linear memory this model holds: every address must fit a non-negative `i32`.
pub const MAX_MEMORY: usize = 0x7fff_ffff;

/// A guest's linear memory with its allocator: the bytes, the live blocks
/// (start address to size), and the first address not yet handed out.
/// Address `0` is never handed out: it is the null sentinel.
pub struct LinearMemory {
    pub bytes: Vec<u8>,
    pub blocks: HashMap<u32, u32>,
    pub next: usize,
}

impl LinearMemory {
    /// Every live block is non-empty, starts after the null address and ends
    /// at or before `next`, which lies within memory.
    pub open spec fn wf(&self) -> bool {
        &&& 1 <= self.next <= self.bytes@.len() <= MAX_MEMORY
        &&& forall|a: u32| #[trigger]
            self.blocks@.contains_key(a) ==> 1 <= a && 1 <= self.blocks@[a] && a
                + self.blocks@[a] <= self.next
    }

    /// A zeroed memory of `size` bytes with nothing allocated.
    pub fn new(size: usize) -> (r: LinearMemory)
        requires
            1 <= size <= MAX_MEMORY,
        ensures
            r.wf(),
            r.bytes@ == Seq::new(size as nat, |i: int| 0u8),
            r.blocks@ == Map::<u32, u32>::empty(),
            r.next == 1,
    {
        let mut bytes: Vec<u8> = Vec::new();
        let mut i: usize = 0;
        while i < size
            invariant
                i <= size,
                bytes@ == Seq::new(i as nat, |j: int| 0u8),
            decreases size - i,
        {
            bytes.push(0u8);
            i = i + 1;
            assert(bytes@ =~= Seq::new(i as nat, |j: int| 0u8));
        }
        LinearMemory { bytes, blocks: HashMap::new(), next: 1 }
    }

    /// The current contents of linear memory, as the host sees them.
    pub fn data(&self) -> (r: &[u8])
        ensures
            r@ == self.bytes@,
    {
        self.bytes.as_slice()
    }

    /// Number of live blocks.
    pub fn live_blocks(&self) -> (r: usize)
        ensures
            r == self.blocks@.len(),
    {
        self.blocks.len()
    }

    /// Whether a live block starts at `addr`.
    pub fn is_live(&self, addr: u32) -> (r: bool)
        ensures
            r == self.blocks@.contains_key(addr),
    {
        self.blocks.contains_key(&addr)
    }

    /// Reserves `size` bytes and returns their address, or `0` when memory is exhausted.
    pub fn reserve(&mut self, size: u32) -> (r: u32)
        requires
            old(self).wf(),
            1 <= size,
        ensures
            final(self).wf(),
            final(self).bytes@ == old(self).bytes@,
            size <= old(self).bytes@.len() - old(self).next ==> {
                &&& r as int == old(self).next
                &&& final(self).next == old(self).next + size
                &&& final(self).blocks@ == old(self).blocks@.insert(r, size)
            },
            size > old(self).bytes@.len() - old(self).next ==> {
                &&& r == 0
                &&& final(self).next == old(self).next
                &&& final(self).blocks@ == old(self).blocks@
            },
    {
        if size as usize > self.bytes.len() - self.next {
            return 0;
        }
        let addr = self.next as u32;
        self.blocks.insert(addr, size);
        self.next = self.next + size as usize;
        addr
    }

    /// Releases the live block at `addr`, which must have been reserved with this `size`.
    pub fn release(&mut self, addr: u32, size: u32)
        requires
            old(self).wf(),
            old(self).blocks@.contains_key(addr),
            old(self).blocks@[addr] == size,
        ensures
            final(self).wf(),
            final(self).bytes@ == old(self).bytes@,
            final(self).next == old(self).next,
            final(self).blocks@ == old(self).blocks@.remove(addr),
    {
        self.blocks.remove(&addr);
    }

    /// Copies `src` into memory starting at `at`; every other byte stays.
    fn write(&mut self, at: usize, src: &[u8])
        requires
            old(self).wf(),
            at + src@.len() <= old(self).bytes@.len(),
        ensures
            final(self).wf(),
            final(self).next == old(self).next,
            final(self).blocks@ == old(self).blocks@,
            final(self).bytes@.len() == old(self).bytes@.len(),
            final(self).bytes@.subrange(at as int, at + src@.len()) == src@,
            forall|i: int|
                0 <= i < old(self).bytes@.len() && !(at <= i < at + src@.len())
                    ==> final(self).bytes@[i] == old(self).bytes@[i],
    {
        let mut k: usize = 0;
        while k < src.len()
            invariant
                self.wf(),
                self.next == old(self).next,
                self.blocks@ == old(self).blocks@,
                self.bytes@.len() == old(self).bytes@.len(),
                at + src@.len() <= self.bytes@.len(),
                k <= src@.len(),
                forall|j: int| 0 <= j < k ==> self.bytes@[at + j] == src@[j],
                forall|i: int|
                    0 <= i < old(self).bytes@.len() && !(at <= i < at + k)
                        ==> self.bytes@[i] == old(self).bytes@[i],
            decreases src@.len() - k,
        {
            self.bytes.set(at + k, src[k]);
            k = k + 1;
        }
        assert(self.bytes@.subrange(at as int, at + src@.len()) =~= src@);
    }
}

/// Whether the allocator has room for everything `collect` reserves for `port`:
/// the encoded payload with its terminator, then the descriptor.
pub open spec fn collect_fits(m: LinearMemory, port: u32) -> bool {
    m.next + b64_len(req_text(port).len()) + 1 + 8 <= m.bytes@.len()
}

/// `after` is `before` once `collect(port)` returned the descriptor address `r`:
/// the descriptor at `r` names the base64 payload of the capability's text followed by
/// a zero byte, both blocks are live, and no other byte changed.
pub open spec fn collected(before: LinearMemory, port: u32, r: i32, after: LinearMemory) -> bool {
    let e = b64_encoded(req_text(port));
    let d = descriptor_at(after.bytes@, r as int);
    &&& 0 < d.offset
    &&& d.len == e.len()
    &&& e.len() == b64_len(req_text(port).len())
    &&& d.offset + d.len + 1 <= r
    &&& r + 8 <= after.bytes@.len()
    &&& after.bytes@.len() == before.bytes@.len()
    &&& after.bytes@.subrange(r as int, r + 8) == descriptor_bytes(d)
    &&& after.bytes@.subrange(d.offset as int, d.offset + d.len) == e
    &&& after.bytes@[d.offset + d.len] == 0
    &&& b64_decoded(e) == Some(req_text(port))
    &&& after.blocks@ == before.blocks@.insert(d.offset as u32, (d.len + 1) as u32).insert(
        r as u32,
        8,
    )
    &&& forall|i: int|
        0 <= i < before.bytes@.len() && !(d.offset <= i < r + 8) ==> after.bytes@[i]
            == before.bytes@[i]
}

/// Whether `addr` is a descriptor that `collect` handed out and that was not released:
/// its own block and its payload block (length plus terminator) are both live.
pub open spec fn owns_collect(m: LinearMemory, addr: i32) -> bool {
    let d = descriptor_at(m.bytes@, addr as int);
    &&& addr > 0
    &&& m.blocks@.contains_key(addr as u32)
    &&& m.blocks@[addr as u32] == 8
    &&& 0 < d.offset
    &&& 0 <= d.len
    &&& d.offset != addr
    &&& m.blocks@.contains_key(d.offset as u32)
    &&& m.blocks@[d.offset as u32] == d.len + 1
}

/// Stores `e` at `at` followed by a zero byte; every other byte stays.
fn store_payload(mem: &mut LinearMemory, at: u32, e: &[u8])
    requires
        old(mem).wf(),
        at + e@.len() + 1 <= old(mem).bytes@.len(),
    ensures
        final(mem).wf(),
        final(mem).next == old(mem).next,
        final(mem).blocks@ == old(mem).blocks@,
        final(mem).bytes@.len() == old(mem).bytes@.len(),
        final(mem).bytes@.subrange(at as int, at + e@.len()) == e@,
        final(mem).bytes@[at + e@.len()] == 0,
        forall|i: int|
            0 <= i < old(mem).bytes@.len() && !(at <= i < at + e@.len() + 1)
                ==> final(mem).bytes@[i] == old(mem).bytes@[i],
{
    let ghost m0 = *mem;
    mem.write(at as usize, e);
    let ghost m1 = *mem;
    let terminator: Vec<u8> = vec![0u8];
    mem.write(at as usize + e.len(), terminator.as_slice());
    assert(mem.bytes@[at + e@.len()] == terminator@[0]);
    assert(mem.bytes@.subrange(at as int, at + e@.len()) =~= e@) by {
        assert forall|j: int| 0 <= j < e@.len() implies mem.bytes@[at + j] == e@[j] by {
            assert(m1.bytes@[at + j] == m1.bytes@.subrange(at as int, at + e@.len())[j]);
        }
    }
}

/// Stores the wire bytes of `d` at `at`; every other byte stays.
fn store_descriptor(mem: &mut LinearMemory, at: u32, d: PluginCollectData)
    requires
        old(mem).wf(),
        at + 8 <= old(mem).bytes@.len(),
    ensures
        final(mem).wf(),
        final(mem).next == old(mem).next,
        final(mem).blocks@ == old(mem).blocks@,
        final(mem).bytes@.len() == old(mem).bytes@.len(),
        final(mem).bytes@.subrange(at as int, at + 8) == descriptor_bytes(d),
        descriptor_at(final(mem).bytes@, at as int) == d,
        forall|i: int|
            0 <= i < old(mem).bytes@.len() && !(at <= i < at + 8) ==> final(mem).bytes@[i]
                == old(mem).bytes@[i],
{
    let wire = d.to_bytes();
    mem.write(at as usize, wire.as_slice());
    proof {
        lemma_descriptor_round_trip(mem.bytes@, at as int, d);
    }
}

/// The guest entry point: encodes the capability's payload in base64, stores it with a
/// trailing zero byte, stores a descriptor of it, and returns the descriptor's address.
/// Returns `0` when memory runs out, releasing whatever it had reserved.
#[verifier::rlimit(30)]
pub fn collect(mem: &mut LinearMemory, port: u32) -> (r: i32)
    requires
        old(mem).wf(),
    ensures
        final(mem).wf(),
        r == 0 <==> !collect_fits(*old(mem), port),
        r == 0 ==> final(mem).blocks@ == old(mem).blocks@,
        r != 0 ==> collected(*old(mem), port, r, *final(mem)),
        r != 0 ==> owns_collect(*final(mem), r),
{
    let text = req_data(port);
    assert(b64_len(text@.len()) <= 96);
    let encoded = encode_payload(text.as_slice());
    let data_len: u32 = encoded.len() as u32;
    let data_addr = mem.reserve(data_len + 1);
    if data_addr == 0 {
        return 0;
    }
    store_payload(mem, data_addr, encoded.as_slice());
    let ghost m1 = *mem;
    let desc_addr = mem.reserve(DESCRIPTOR_SIZE);
    if desc_addr == 0 {
        mem.release(data_addr, data_len + 1);
        assert(mem.blocks@ =~= old(mem).blocks@);
        return 0;
    }
    let d = PluginCollectData { offset: data_addr as i32, len: data_len as i32 };
    store_descriptor(mem, desc_addr, d);
    proof {
        let e = b64_encoded(req_text(port));
        assert(mem.bytes@.subrange(data_addr as int, data_addr + data_len) =~= e) by {
            assert forall|j: int| 0 <= j < data_len implies mem.bytes@[data_addr + j] == e[j] by {
                assert(m1.bytes@[data_addr + j] == m1.bytes@.subrange(
                    data_addr as int,
                    data_addr + data_len,
                )[j]);
            }
        }
        assert(mem.bytes@[data_addr + data_len] == 0);
        assert(mem.blocks@ == old(mem).blocks@.insert(data_addr, (data_len + 1) as u32).insert(desc_addr, 8u32));
    }
    desc_addr as i32
}

/// The guest's release entry point: frees the payload block (its length plus the
/// terminator, as recorded in the descriptor) and then the descriptor block.
/// The null address is a no-op.
pub fn deallocate(mem: &mut LinearMemory, struct_data: i32)
    requires
        old(mem).wf(),
        struct_data == 0 || owns_collect(*old(mem), struct_data),
    ensures
        final(mem).wf(),
        final(mem).bytes@ == old(mem).bytes@,
        final(mem).next == old(mem).next,
        struct_data == 0 ==> final(mem).blocks@ == old(mem).blocks@,
        struct_data != 0 ==> final(mem).blocks@ == old(mem).blocks@.remove(
            descriptor_at(old(mem).bytes@, struct_data as int).offset as u32,
        ).remove(struct_data as u32),
{
    if struct_data == 0 {
        return;
    }
    let d = PluginCollectData::read_at(mem.bytes.as_slice(), struct_data as usize);
    mem.release(d.offset as u32, (d.len + 1) as u32);
    mem.release(struct_data as u32, DESCRIPTOR_SIZE);
}

/// What `collect` leaves behind is read back by the host exactly: the descriptor's
/// length is that of the base64 text, the payload span is that text, and it decodes
/// to the capability's payload.
pub proof fn lemma_collect_then_read(before: LinearMemory, port: u32, r: i32, after: LinearMemory)
    requires
        collected(before, port, r, after),
    ensures
        descriptor_read(after.bytes@, r) == Ok::<PluginCollectData, ProtocolError>(
            descriptor_at(after.bytes@, r as int),
        ),
        descriptor_at(after.bytes@, r as int).len == b64_len(req_text(port).len()),
        payload_of(after.bytes@, descriptor_at(after.bytes@, r as int)) == Ok::<
            Seq<u8>,
            ProtocolError,
        >(b64_encoded(req_text(port))),
        b64_decoded(b64_encoded(req_text(port))) == Some(req_text(port)),
        host_read(after.bytes@, r) == match decoded_text(b64_encoded(req_text(port))) {
            Some(t) => Ok::<Seq<char>, ProtocolError>(t),
            None => Err::<Seq<char>, ProtocolError>(ProtocolError::DecodeFailure),
        },
{
}

/// Once the descriptor at `addr` has been released, it no longer counts as handed
/// out, so `deallocate` cannot be called on it a second time.
pub proof fn lemma_no_second_deallocate(before: LinearMemory, addr: i32, after: LinearMemory)
    requires
        before.wf(),
        owns_collect(before, addr),
        after.blocks@ == before.blocks@.remove(
            descriptor_at(before.bytes@, addr as int).offset as u32,
        ).remove(addr as u32),
    ensures
        !owns_collect(after, addr),
        addr != 0,
{
}

} // verus!
