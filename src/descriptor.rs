use vstd::prelude::*;

verus! {

/// Size in bytes of a descriptor on the wire.
pub const DESCRIPTOR_SIZE: u32 = 8;

/// The fixed-size record through which the guest returns variable-length data:
/// where the payload starts in linear memory and how many bytes it has.
/// On the wire it is `offset` then `len`, each a little-endian `i32`.
#[derive(Debug, Clone, Copy, PartialEq, Eq, Structural)]
pub struct PluginCollectData {
    pub offset: i32,
    pub len: i32,
}

/// The two's-complement bit pattern of `v`, read as an unsigned number.
pub open spec fn bits_of(v: i32) -> nat {
    if v >= 0 {
        v as nat
    } else {
        (v + 0x1_0000_0000) as nat
    }
}

/// The four little-endian bytes of `v`.
pub open spec fn i32_le_bytes(v: i32) -> Seq<u8> {
    let u = bits_of(v);
    seq![
        (u % 0x100) as u8,
        ((u / 0x100) % 0x100) as u8,
        ((u / 0x1_0000) % 0x100) as u8,
        (u / 0x100_0000) as u8,
    ]
}

/// The `i32` whose little-endian bytes start at `at` in `b`.
pub open spec fn i32_le_at(b: Seq<u8>, at: int) -> i32 {
    let u = b[at] as int + 0x100 * b[at + 1] + 0x1_0000 * b[at + 2] + 0x100_0000 * b[at + 3];
    if u >= 0x8000_0000 {
        (u - 0x1_0000_0000) as i32
    } else {
        u as i32
    }
}

/// The eight wire bytes of a descriptor.
pub open spec fn descriptor_bytes(d: PluginCollectData) -> Seq<u8> {
    i32_le_bytes(d.offset) + i32_le_bytes(d.len)
}

/// The descriptor whose wire bytes start at `at` in `b`.
pub open spec fn descriptor_at(b: Seq<u8>, at: int) -> PluginCollectData {
    PluginCollectData { offset: i32_le_at(b, at), len: i32_le_at(b, at + 4) }
}

/// Reading back the little-endian bytes of an `i32` gives the same value.
pub proof fn lemma_i32_le_round_trip(v: i32)
    ensures
        i32_le_at(i32_le_bytes(v), 0) == v,
{
}

/// Decoding the wire bytes of a descriptor, wherever they stand, gives the descriptor back.
pub proof fn lemma_descriptor_round_trip(b: Seq<u8>, at: int, d: PluginCollectData)
    requires
        0 <= at,
        at + 8 <= b.len(),
        b.subrange(at, at + 8) == descriptor_bytes(d),
    ensures
        descriptor_at(b, at) == d,
{
    let w = descriptor_bytes(d);
    assert(b[at] == w[0] && b[at + 1] == w[1] && b[at + 2] == w[2] && b[at + 3] == w[3]);
    assert(b[at + 4] == w[4] && b[at + 5] == w[5] && b[at + 6] == w[6] && b[at + 7] == w[7]);
    lemma_i32_le_round_trip(d.offset);
    lemma_i32_le_round_trip(d.len);
}

fn push_i32_le(out: &mut Vec<u8>, v: i32)
    ensures
        final(out)@ == old(out)@ + i32_le_bytes(v),
{
    let u: u32 = if v >= 0 {
        v as u32
    } else {
        (v as i64 + 0x1_0000_0000i64) as u32
    };
    out.push((u % 0x100) as u8);
    out.push(((u / 0x100) % 0x100) as u8);
    out.push(((u / 0x1_0000) % 0x100) as u8);
    out.push((u / 0x100_0000) as u8);
    assert(final(out)@ =~= old(out)@ + i32_le_bytes(v));
}

fn read_i32_le(b: &[u8], at: usize) -> (r: i32)
    requires
        at + 4 <= b@.len(),
    ensures
        r == i32_le_at(b@, at as int),
{
    let u: u64 = b[at] as u64 + 0x100 * (b[at + 1] as u64) + 0x1_0000 * (b[at + 2] as u64)
        + 0x100_0000 * (b[at + 3] as u64);
    if u >= 0x8000_0000 {
        (u as i64 - 0x1_0000_0000i64) as i32
    } else {
        u as i32
    }
}

impl PluginCollectData {
    /// The descriptor's eight wire bytes: `offset` then `len`, little-endian.
    pub fn to_bytes(&self) -> (r: Vec<u8>)
        ensures
            r@ == descriptor_bytes(*self),
            r@.len() == 8,
    {
        let mut out: Vec<u8> = Vec::new();
        push_i32_le(&mut out, self.offset);
        push_i32_le(&mut out, self.len);
        out
    }

    /// The descriptor whose wire bytes start at `at`.
    pub fn read_at(b: &[u8], at: usize) -> (r: PluginCollectData)
        requires
            at + 8 <= b@.len(),
        ensures
            r == descriptor_at(b@, at as int),
    {
        let _n = b.len();
        let offset = read_i32_le(b, at);
        let len = read_i32_le(b, at + 4);
        PluginCollectData { offset, len }
    }
}

} // verus!
