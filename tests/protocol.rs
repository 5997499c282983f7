use base64::Engine;
use plugin_bridge::codec::{decode_payload, encode_payload, req_data};
use plugin_bridge::descriptor::PluginCollectData;
use plugin_bridge::error::ProtocolError;
use plugin_bridge::guest::{collect, deallocate, LinearMemory};
use plugin_bridge::host::{payload_view, read_collect_result, read_descriptor};
use plugin_bridge::resolver::{convert_wasm_pointer, resolve_span};

const TEXT_8080: &str = "some string information 123 with - data {inside} and port: 8080";

/// A memory of `size` zero bytes holding a descriptor at `at` and `payload` at `d.offset`.
fn memory_with(size: usize, at: usize, d: PluginCollectData, payload: &[u8]) -> Vec<u8> {
    let mut mem = vec![0u8; size];
    mem[at..at + 8].copy_from_slice(&d.to_bytes());
    let o = d.offset as usize;
    mem[o..o + payload.len()].copy_from_slice(payload);
    mem
}

#[test]
fn descriptor_wire_layout_is_little_endian_offset_then_len() {
    let d = PluginCollectData { offset: 1024, len: 88 };
    assert_eq!(d.to_bytes(), vec![0, 4, 0, 0, 88, 0, 0, 0]);
    let n = PluginCollectData { offset: -1, len: -2 };
    assert_eq!(n.to_bytes(), vec![255, 255, 255, 255, 254, 255, 255, 255]);
}

#[test]
fn descriptor_reads_back_from_any_position() {
    let d = PluginCollectData { offset: 0x0102_0304, len: 0x7fff_ffff };
    let mut b = vec![9u8, 9, 9];
    b.extend_from_slice(&d.to_bytes());
    assert_eq!(PluginCollectData::read_at(&b, 3), d);
    let n = PluginCollectData { offset: i32::MIN, len: -5 };
    assert_eq!(PluginCollectData::read_at(&n.to_bytes(), 0), n);
}

#[test]
fn null_address_is_rejected() {
    assert_eq!(convert_wasm_pointer(0, 100), Err(ProtocolError::NullPointer));
    assert_eq!(resolve_span(0, 4, 100), Err(ProtocolError::NullPointer));
    let mem = vec![0u8; 64];
    assert_eq!(read_collect_result(&mem, 0), Err(ProtocolError::NullResult));
    let d = PluginCollectData { offset: 0, len: 4 };
    assert_eq!(payload_view(&mem, &d), Err(ProtocolError::NullPointer));
    let mem = memory_with(64, 8, d, &[]);
    assert_eq!(read_collect_result(&mem, 8), Err(ProtocolError::NullPointer));
}

#[test]
fn address_equal_to_memory_size_is_rejected() {
    assert_eq!(convert_wasm_pointer(100, 100), Err(ProtocolError::OutOfBounds));
    assert_eq!(convert_wasm_pointer(99, 100), Ok(99));
    assert_eq!(resolve_span(100, 0, 100), Err(ProtocolError::OutOfBounds));
    let mem = vec![0u8; 64];
    assert_eq!(read_descriptor(&mem, 64), Err(ProtocolError::OutOfBounds));
}

#[test]
fn negative_address_reads_as_unsigned_and_is_out_of_bounds() {
    assert_eq!(convert_wasm_pointer(-1, 100), Err(ProtocolError::OutOfBounds));
}

#[test]
fn descriptor_span_must_fit() {
    let mem = vec![0u8; 64];
    assert_eq!(read_descriptor(&mem, 57), Err(ProtocolError::OutOfBounds));
    assert!(read_descriptor(&mem, 56).is_ok());
}

#[test]
fn payload_running_past_the_end_is_rejected() {
    assert_eq!(resolve_span(10, 5, 15), Ok(10));
    assert_eq!(resolve_span(10, 6, 15), Err(ProtocolError::OutOfBounds));
    assert_eq!(resolve_span(10, -1, 15), Err(ProtocolError::OutOfBounds));
    let d = PluginCollectData { offset: 40, len: 30 };
    assert_eq!(convert_wasm_pointer(40, 64), Ok(40));
    let mem = memory_with(64, 8, PluginCollectData { offset: 40, len: 0 }, &[]);
    let mut mem = mem;
    mem[8..16].copy_from_slice(&d.to_bytes());
    assert_eq!(payload_view(&mem, &d), Err(ProtocolError::OutOfBounds));
    assert_eq!(read_collect_result(&mem, 8), Err(ProtocolError::OutOfBounds));
}

#[test]
fn reader_recovers_payloads_of_every_length() {
    for logical in [&b""[..], b"a", b"ab", b"abc", b"hello, world"] {
        let e = encode_payload(logical);
        let d = PluginCollectData { offset: 32, len: e.len() as i32 };
        let mem = memory_with(32 + e.len() + 1, 8, d, &e);
        assert_eq!(payload_view(&mem, &d), Ok(e.clone()));
        let text = read_collect_result(&mem, 8).unwrap();
        assert_eq!(text.as_bytes(), logical);
    }
}

#[test]
fn encode_payload_is_padded_standard_base64() {
    assert_eq!(encode_payload(b"hello"), b"aGVsbG8=".to_vec());
    assert_eq!(encode_payload(b""), Vec::<u8>::new());
    assert_eq!(encode_payload(&[0xff, 0xfe]), b"//4=".to_vec());
}

#[test]
fn decode_payload_checks_encoding_and_text() {
    assert_eq!(decode_payload(b"aGVsbG8="), Some("hello".to_string()));
    assert_eq!(decode_payload(b""), Some(String::new()));
    assert_eq!(decode_payload(b"!!!!"), None);
    assert_eq!(decode_payload(b"/w=="), None);
}

#[test]
fn malformed_payload_is_a_decode_failure() {
    let d = PluginCollectData { offset: 32, len: 4 };
    let mem = memory_with(40, 8, d, b"!!!!");
    assert_eq!(read_collect_result(&mem, 8), Err(ProtocolError::DecodeFailure));
}

#[test]
fn distinct_payloads_decode_apart() {
    let a = encode_payload(b"port 1");
    let b = encode_payload(b"port 2");
    assert_ne!(a, b);
    assert_ne!(decode_payload(&a), decode_payload(&b));
}

#[test]
fn req_data_renders_capability_in_decimal() {
    assert_eq!(req_data(8080), TEXT_8080.as_bytes().to_vec());
    assert!(req_data(0).ends_with(b"port: 0"));
    assert!(req_data(u32::MAX).ends_with(b"port: 4294967295"));
}

#[test]
fn end_to_end_capability_8080() {
    let mut mem = LinearMemory::new(1024);
    let addr = collect(&mut mem, 8080);
    assert_ne!(addr, 0);
    let d = read_descriptor(mem.data(), addr).unwrap();
    let expected = base64::prelude::BASE64_STANDARD.encode(TEXT_8080);
    assert_eq!(d.len as usize, expected.len());
    assert_eq!(payload_view(mem.data(), &d).unwrap(), expected.as_bytes().to_vec());
    assert_eq!(mem.data()[(d.offset + d.len) as usize], 0);
    assert_eq!(read_collect_result(mem.data(), addr), Ok(TEXT_8080.to_string()));
    deallocate(&mut mem, addr);
    assert_eq!(mem.live_blocks(), 0);
}

#[test]
fn collect_fails_cleanly_when_memory_is_short() {
    let need = 1 + base64::prelude::BASE64_STANDARD.encode(TEXT_8080).len() + 1 + 8;
    let mut tiny = LinearMemory::new(20);
    assert_eq!(collect(&mut tiny, 8080), 0);
    assert_eq!(tiny.live_blocks(), 0);
    // room for the payload but not for the descriptor: the payload block is released
    let mut short = LinearMemory::new(need - 1);
    assert_eq!(collect(&mut short, 8080), 0);
    assert_eq!(short.live_blocks(), 0);
    let mut exact = LinearMemory::new(need);
    assert_ne!(collect(&mut exact, 8080), 0);
    assert_eq!(exact.live_blocks(), 2);
}

/// Counts release calls per descriptor address.
struct ReleaseLog {
    calls: Vec<(i32, usize)>,
}

impl ReleaseLog {
    fn release(&mut self, mem: &mut LinearMemory, addr: i32) {
        match self.calls.iter_mut().find(|(a, _)| *a == addr) {
            Some(entry) => entry.1 += 1,
            None => self.calls.push((addr, 1)),
        }
        deallocate(mem, addr);
    }
}

#[test]
fn each_descriptor_is_released_exactly_once() {
    let mut mem = LinearMemory::new(4096);
    let mut log = ReleaseLog { calls: Vec::new() };
    let mut addrs = Vec::new();
    for port in [1u32, 80, 8080] {
        let addr = collect(&mut mem, port);
        assert_ne!(addr, 0);
        let text = read_collect_result(mem.data(), addr).unwrap();
        assert!(text.ends_with(&format!("port: {}", port)));
        addrs.push(addr);
    }
    assert_eq!(mem.live_blocks(), 6);
    for &addr in &addrs {
        let d = read_descriptor(mem.data(), addr).unwrap();
        log.release(&mut mem, addr);
        assert!(!mem.is_live(addr as u32));
        assert!(!mem.is_live(d.offset as u32));
    }
    assert_eq!(mem.live_blocks(), 0);
    for &addr in &addrs {
        let n = log.calls.iter().find(|(a, _)| *a == addr).unwrap().1;
        assert_eq!(n, 1);
    }
}

#[test]
fn releasing_null_is_a_no_op() {
    let mut mem = LinearMemory::new(256);
    let addr = collect(&mut mem, 7);
    deallocate(&mut mem, 0);
    assert_eq!(mem.live_blocks(), 2);
    assert!(mem.is_live(addr as u32));
}

#[test]
fn reserve_and_release_track_live_blocks() {
    let mut mem = LinearMemory::new(16);
    let a = mem.reserve(10);
    assert_eq!(a, 1);
    assert_eq!(mem.reserve(6), 0);
    let b = mem.reserve(5);
    assert_eq!(b, 11);
    mem.release(a, 10);
    assert!(!mem.is_live(a));
    assert!(mem.is_live(b));
}
