use tcp_scanner::portspec::{parse_ports_spec, top_ports};

#[test]
fn parses_singles_and_range() {
    let list = parse_ports_spec("80,443,1000-1002").unwrap();
    assert_eq!(list.len(), 5);
    for p in [80u16, 443, 1000, 1001, 1002] {
        assert!(list.contains(p), "port {}", p);
    }
    assert!(!list.contains(1003));
    assert!(!list.contains(999));
}

#[test]
fn open_lower_bound_starts_at_one() {
    let list = parse_ports_spec("-10").unwrap();
    assert_eq!(list.len(), 10);
    assert!(!list.contains(0));
    assert!(list.contains(1));
    assert!(list.contains(10));
    assert!(!list.contains(11));
}

#[test]
fn open_upper_bound_ends_at_max() {
    let list = parse_ports_spec("60000-").unwrap();
    assert_eq!(list.len(), 5536);
    assert!(!list.contains(59999));
    assert!(list.contains(60000));
    assert!(list.contains(65535));
}

#[test]
fn bare_dash_is_the_whole_space() {
    let list = parse_ports_spec("-").unwrap();
    assert_eq!(list.len(), 65536);
    assert!(list.contains(0));
    assert!(list.contains(65535));
}

#[test]
fn empty_range_selects_nothing() {
    let list = parse_ports_spec("90-80").unwrap();
    assert_eq!(list.len(), 0);
}

#[test]
fn overlapping_tokens_count_once() {
    let list = parse_ports_spec("80,70-90").unwrap();
    assert_eq!(list.len(), 21);
}

#[test]
fn plus_sign_and_leading_zeros_parse() {
    let list = parse_ports_spec("+80,0443").unwrap();
    assert!(list.contains(80));
    assert!(list.contains(443));
    assert_eq!(list.len(), 2);
}

#[test]
fn malformed_number_is_rejected() {
    let err = parse_ports_spec("80,abc,443").unwrap_err();
    assert_eq!(err.token, b"abc".to_vec());
}

#[test]
fn empty_spec_is_rejected() {
    let err = parse_ports_spec("").unwrap_err();
    assert_eq!(err.token, Vec::<u8>::new());
}

#[test]
fn trailing_comma_is_rejected() {
    assert!(parse_ports_spec("80,").is_err());
}

#[test]
fn out_of_range_number_is_rejected() {
    let err = parse_ports_spec("70000").unwrap_err();
    assert_eq!(err.token, b"70000".to_vec());
    assert!(parse_ports_spec("999999999999999999999999").is_err());
}

#[test]
fn double_dash_token_is_rejected() {
    let err = parse_ports_spec("80-90-100").unwrap_err();
    assert_eq!(err.token, b"80-90-100".to_vec());
}

#[test]
fn negative_number_is_rejected() {
    // "-80-" splits at the first dash into "" and "80-", which is no number
    assert!(parse_ports_spec("-80-").is_err());
}

#[test]
fn default_top_ports_are_well_known() {
    let ports = top_ports();
    assert!(ports.contains(&22));
    assert!(ports.contains(&80));
    assert!(ports.contains(&443));
    assert_eq!(ports.len(), 30);
    let mut list = tcp_scanner::port::PortsList::new();
    list.add_ports(&ports);
    assert_eq!(list.len(), 30);
}
