use session_auth::hex::{decode, encode};

#[test]
fn encode_writes_two_lower_case_digits_per_byte() {
    assert_eq!(encode(&[]), b"".to_vec());
    assert_eq!(encode(&[0x00]), b"00".to_vec());
    assert_eq!(encode(&[0xab]), b"ab".to_vec());
    assert_eq!(encode(&[0x09, 0x0a, 0xf0, 0xff]), b"090af0ff".to_vec());
}

#[test]
fn decode_reads_what_encode_wrote() {
    assert_eq!(decode(b""), Some(vec![]));
    assert_eq!(decode(b"090af0ff"), Some(vec![0x09, 0x0a, 0xf0, 0xff]));
    let all: Vec<u8> = (0u8..=255).collect();
    assert_eq!(decode(&encode(&all)), Some(all));
}

#[test]
fn decode_refuses_odd_length() {
    assert_eq!(decode(b"0"), None);
    assert_eq!(decode(b"abc"), None);
}

#[test]
fn decode_refuses_upper_case_and_other_bytes() {
    assert_eq!(decode(b"AB"), None);
    assert_eq!(decode(b"aB"), None);
    assert_eq!(decode(b"0g"), None);
    assert_eq!(decode(b"0/"), None);
    assert_eq!(decode(b":0"), None);
    assert_eq!(decode(b"`0"), None);
    assert_eq!(decode(b" 0"), None);
    assert_eq!(decode(&[0x30, 0xff]), None);
}

#[test]
fn decode_accepts_every_digit() {
    assert_eq!(decode(b"0123456789abcdef"), Some(vec![0x01, 0x23, 0x45, 0x67, 0x89, 0xab, 0xcd, 0xef]));
}
