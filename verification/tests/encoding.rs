use husk::base64::{base64_decode, base64_encode};

fn check(data: &[u8], text: &str) {
    let encoded = base64_encode(data);
    assert_eq!(encoded, text);
    let decoded = base64_decode(&encoded).unwrap();
    assert_eq!(decoded, data);
}

#[test]
fn main_base64_roundtrip_empty() {
    let data = b"";
    let encoded = base64_encode(data);
    assert_eq!(encoded, "");
    let decoded = base64_decode(&encoded).unwrap();
    assert_eq!(decoded, data);
}

#[test]
fn main_base64_roundtrip_one_byte() {
    let data = b"A";
    let encoded = base64_encode(data);
    assert_eq!(encoded, "QQ==");
    let decoded = base64_decode(&encoded).unwrap();
    assert_eq!(decoded, data);
}

#[test]
fn main_base64_roundtrip_two_bytes() {
    let data = b"AB";
    let encoded = base64_encode(data);
    assert_eq!(encoded, "QUI=");
    let decoded = base64_decode(&encoded).unwrap();
    assert_eq!(decoded, data);
}

#[test]
fn main_base64_roundtrip_three_bytes() {
    let data = b"ABC";
    let encoded = base64_encode(data);
    assert_eq!(encoded, "QUJD");
    let decoded = base64_decode(&encoded).unwrap();
    assert_eq!(decoded, data);
}

#[test]
fn main_base64_roundtrip_hello_world() {
    let data = b"Hello, World!";
    let encoded = base64_encode(data);
    assert_eq!(encoded, "SGVsbG8sIFdvcmxkIQ==");
    let decoded = base64_decode(&encoded).unwrap();
    assert_eq!(decoded, data);
}

#[test]
fn main_base64_roundtrip_binary_data() {
    let data: Vec<u8> = (0..=255).collect();
    let encoded = base64_encode(&data);
    let decoded = base64_decode(&encoded).unwrap();
    assert_eq!(decoded, data);
}

#[test]
fn main_base64_decode_invalid_length() {
    assert!(base64_decode("QQ=").is_err());
}

#[test]
fn main_base64_decode_invalid_char() {
    assert!(base64_decode("QQ!=").is_err());
}

#[test]
fn lib_base64_roundtrip_empty() {
    check(b"", "");
}

#[test]
fn lib_base64_roundtrip_one_byte() {
    check(b"A", "QQ==");
}

#[test]
fn lib_base64_roundtrip_two_bytes() {
    check(b"AB", "QUI=");
}

#[test]
fn lib_base64_roundtrip_three_bytes() {
    check(b"ABC", "QUJD");
}

#[test]
fn lib_base64_roundtrip_hello_world() {
    check(b"Hello, World!", "SGVsbG8sIFdvcmxkIQ==");
}

#[test]
fn lib_base64_roundtrip_binary_data() {
    let data: Vec<u8> = (0..=255).collect();
    assert_eq!(base64_decode(&base64_encode(&data)).unwrap(), data);
}

#[test]
fn lib_base64_decode_invalid_length() {
    assert!(base64_decode("QQ=").is_err());
}

#[test]
fn lib_base64_decode_invalid_char() {
    assert!(base64_decode("QQ!=").is_err());
}

#[test]
fn base64_text_grows_by_a_third() {
    for n in 0..20 {
        let data = vec![7u8; n];
        assert_eq!(base64_encode(&data).len(), (n + 2) / 3 * 4);
    }
}

#[test]
fn base64_uses_the_standard_alphabet() {
    check(&[0xfb, 0xef, 0xff], "++//");
    check(&[0x00, 0x10, 0x83], "ABCD");
}

#[test]
fn base64_refuses_text_that_is_not_ascii() {
    assert!(base64_decode("éé").is_err());
    assert!(base64_decode("Q Q=").is_err());
}
