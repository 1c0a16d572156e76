use tcp_scanner::text::{bytes_as_str, find_byte, find_sub, push_decimal, push_escaped, push_hex};

#[test]
fn decimal_rendering() {
    let mut s = String::new();
    push_decimal(&mut s, 0);
    assert_eq!(s, "0");
    let mut s = String::new();
    push_decimal(&mut s, 65535);
    assert_eq!(s, "65535");
    let mut s = String::from("port ");
    push_decimal(&mut s, 80);
    assert_eq!(s, "port 80");
}

#[test]
fn escaping_controls() {
    let mut s = String::new();
    push_escaped(&mut s, "a\tb\r\nc\\d");
    assert_eq!(s, "a\\tb\\r\\nc\\d");
}

#[test]
fn hex_dump_pads_small_bytes_with_a_blank() {
    let mut s = String::new();
    push_hex(&mut s, &[0x00, 0x0f, 0x10, 0xff]);
    assert_eq!(s, " 0 f10ff");
}

#[test]
fn utf8_gate() {
    assert_eq!(bytes_as_str(b"hello"), Some("hello"));
    assert!(bytes_as_str(&[0xff, 0xfe]).is_none());
    assert_eq!(bytes_as_str("héllo".as_bytes()), Some("héllo"));
}

#[test]
fn byte_search() {
    let hay = b"a,b,c";
    assert_eq!(find_byte(hay, b',', 0), 1);
    assert_eq!(find_byte(hay, b',', 2), 3);
    assert_eq!(find_byte(hay, b',', 4), 5);
    assert_eq!(find_byte(hay, b'z', 0), 5);
}

#[test]
fn substring_search_finds_the_first_occurrence() {
    let hay = b"xx\r\n\r\nyy\r\n\r\n";
    assert_eq!(find_sub(hay, b"\r\n\r\n", 0), Some(2));
    assert_eq!(find_sub(hay, b"\r\n\r\n", 3), Some(8));
    assert_eq!(find_sub(hay, b"zz", 0), None);
    assert_eq!(find_sub(hay, b"", 0), Some(0));
}
