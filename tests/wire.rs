use kozo_policy::debug::hex_digits;
use kozo_policy::error::Error;
use kozo_policy::wire::{
    decode_request, encode_response, list_payload, null_terminated_str, Request, Response,
    LIST_BYTES,
};

fn field(s: &str) -> [u8; 32] {
    let mut f = [0u8; 32];
    f[..s.len()].copy_from_slice(s.as_bytes());
    f
}

#[test]
fn decodes_capability_request() {
    let mut msg = vec![0u8];
    msg.extend_from_slice(&field("camera.use"));
    msg.extend_from_slice(&7u64.to_le_bytes());
    assert_eq!(
        decode_request(&msg),
        Ok(Request::Capability { name: field("camera.use"), thread_cap: 7 })
    );
    let mut big = vec![0u8];
    big.extend_from_slice(&field("x"));
    big.extend_from_slice(&0x0102_0304_0506_0708u64.to_le_bytes());
    assert_eq!(
        decode_request(&big),
        Ok(Request::Capability { name: field("x"), thread_cap: 0x0102_0304_0506_0708 })
    );
}

#[test]
fn capability_request_without_thread_cap_is_invalid() {
    let mut msg = vec![0u8];
    msg.extend_from_slice(&field("camera.use"));
    msg.extend_from_slice(&[7, 0, 0]);
    assert_eq!(decode_request(&msg), Err(Error::Invalid));
}

#[test]
fn decodes_revoke_and_query() {
    let mut msg = vec![1u8];
    msg.extend_from_slice(&field("camera.use"));
    assert_eq!(decode_request(&msg), Ok(Request::Revoke { name: field("camera.use") }));
    assert_eq!(decode_request(&[1, b'a']), Ok(Request::Revoke { name: field("a") }));
    assert_eq!(decode_request(&[2]), Ok(Request::Query));
}

#[test]
fn bad_tags_are_invalid() {
    assert_eq!(decode_request(&[]), Err(Error::Invalid));
    assert_eq!(decode_request(&[3]), Err(Error::Invalid));
    assert_eq!(decode_request(&[255, 1, 2]), Err(Error::Invalid));
}

#[test]
fn thread_cap_accessor() {
    assert_eq!(Request::Capability { name: field("a"), thread_cap: 9 }.thread_cap(), 9);
    assert_eq!(Request::Query.thread_cap(), 0);
}

#[test]
fn encodes_replies() {
    assert_eq!(encode_response(&Response::Granted), vec![0]);
    assert_eq!(encode_response(&Response::Denied), vec![1]);
    assert_eq!(encode_response(&Response::Revoked), vec![2]);
    assert_eq!(encode_response(&Response::Error(Error::Invalid)), vec![4, 0xFF]);
    assert_eq!(encode_response(&Response::Error(Error::AccessDenied)), vec![4, 0xFC]);
    let list = encode_response(&Response::List(vec![9; LIST_BYTES]));
    assert_eq!(list.len(), 1 + LIST_BYTES);
    assert_eq!(list[0], 3);
    assert!(list[1..].iter().all(|b| *b == 9));
}

#[test]
fn names_from_fields() {
    assert_eq!(null_terminated_str(&field("camera.use")), "camera.use");
    assert_eq!(null_terminated_str(&[b'a'; 32]), "a".repeat(32));
    assert_eq!(null_terminated_str(&field("")), "");
    let mut bad = field("ab");
    bad[1] = 0xFF;
    assert_eq!(null_terminated_str(&bad), "invalid");
}

#[test]
fn list_packing() {
    let names = vec![field("camera.use"), field("audio.out")];
    let p = list_payload(&names);
    assert_eq!(p.len(), LIST_BYTES);
    assert_eq!(&p[..21], b"camera.use\0audio.out\0");
    assert!(p[21..].iter().all(|b| *b == 0));
    assert_eq!(list_payload(&vec![]), vec![0u8; LIST_BYTES]);
}

#[test]
fn list_packing_stops_when_full() {
    let names = vec![[b'z'; 32]; 9];
    let p = list_payload(&names);
    assert_eq!(p.len(), LIST_BYTES);
    // seven 33-byte entries fit in 256 bytes, the eighth does not
    assert_eq!(p[7 * 33 - 1], 0);
    assert!(p[..32].iter().all(|b| *b == b'z'));
    assert!(p[7 * 33..].iter().all(|b| *b == 0));
}

#[test]
fn hex_digits_of_words() {
    assert_eq!(&hex_digits(0xDEADBEEF), b"00000000DEADBEEF");
    assert_eq!(&hex_digits(0), b"0000000000000000");
    assert_eq!(&hex_digits(u64::MAX), b"FFFFFFFFFFFFFFFF");
    assert_eq!(&hex_digits(0x0123456789ABCDEF), b"0123456789ABCDEF");
}
