use tcp_scanner::port::{Port, PortStatus, PortsList};

#[test]
fn new_list_is_empty() {
    let list = PortsList::new();
    assert_eq!(list.len(), 0);
    assert!(!list.contains(0));
    assert!(!list.contains(80));
    assert!(!list.contains(65535));
}

#[test]
fn add_then_contains() {
    let mut list = PortsList::new();
    list.add_port(80);
    assert!(list.contains(80));
    assert!(!list.contains(81));
    assert!(!list.contains(79));
}

#[test]
fn add_then_remove_then_contains_is_false() {
    let mut list = PortsList::new();
    list.add_port(443);
    assert!(list.contains(443));
    list.remove_port(443);
    assert!(!list.contains(443));
}

#[test]
fn remove_keeps_neighbors_in_same_byte() {
    let mut list = PortsList::new();
    for p in 440..448u16 {
        list.add_port(p);
    }
    list.remove_port(443);
    for p in 440..448u16 {
        assert_eq!(list.contains(p), p != 443, "port {}", p);
    }
}

#[test]
fn boundary_ports() {
    let mut list = PortsList::new();
    list.add_port(0);
    list.add_port(65535);
    assert!(list.contains(0));
    assert!(list.contains(65535));
    assert_eq!(list.len(), 2);
}

#[test]
fn len_counts_each_port_once() {
    let mut list = PortsList::new();
    list.add_port(22);
    list.add_port(22);
    assert_eq!(list.len(), 1);
    list.add_port(23);
    assert_eq!(list.len(), 2);
    list.remove_port(22);
    assert_eq!(list.len(), 1);
    list.remove_port(22);
    assert_eq!(list.len(), 1);
}

#[test]
fn add_ports_and_remove_ports() {
    let mut list = PortsList::new();
    list.add_ports(&[1, 2, 3, 1000]);
    assert_eq!(list.len(), 4);
    list.remove_ports(&[2, 1000, 9999]);
    assert!(list.contains(1));
    assert!(!list.contains(2));
    assert!(list.contains(3));
    assert!(!list.contains(1000));
    assert_eq!(list.len(), 2);
}

#[test]
fn iter_yields_ascending_order() {
    let mut list = PortsList::new();
    list.add_ports(&[5000, 3, 80, 65535, 443]);
    let mut it = list.iter();
    let mut seen = Vec::new();
    while let Some(p) = it.next() {
        seen.push(p);
    }
    assert_eq!(seen, vec![3, 80, 443, 5000, 65535]);
}

#[test]
fn iter_starts_after_port_zero() {
    let mut list = PortsList::new();
    list.add_port(0);
    let mut it = list.iter();
    assert_eq!(it.next(), None);
}

#[test]
fn iter_is_restartable() {
    let mut list = PortsList::new();
    list.add_port(7);
    let mut a = list.iter();
    assert_eq!(a.next(), Some(7));
    assert_eq!(a.next(), None);
    let mut b = list.iter();
    assert_eq!(b.next(), Some(7));
}

#[test]
fn port_is_open_and_has_banner() {
    let opened = Port { num: 80, status: PortStatus::Opened { banner: None } };
    assert!(opened.is_open());
    assert!(!opened.has_banner());
    let with_banner = Port { num: 80, status: PortStatus::Opened { banner: Some(vec![104, 105]) } };
    assert!(with_banner.is_open());
    assert!(with_banner.has_banner());
    let closed = Port { num: 80, status: PortStatus::Closed };
    assert!(!closed.is_open());
    assert!(!closed.has_banner());
    let filtered = Port { num: 80, status: PortStatus::Filtered };
    assert!(!filtered.is_open());
    assert!(!filtered.has_banner());
}

#[test]
fn status_describe_plain_variants() {
    assert_eq!(PortStatus::Closed.describe(), "closed");
    assert_eq!(PortStatus::Filtered.describe(), "filtered");
    assert_eq!(PortStatus::Opened { banner: None }.describe(), "opened");
}

#[test]
fn status_describe_text_banner_is_escaped() {
    let status = PortStatus::Opened { banner: Some(b"SSH-2.0\r\n\tok".to_vec()) };
    assert_eq!(status.describe(), "opened (banner: \"SSH-2.0\\r\\n\\tok\")");
}

#[test]
fn status_describe_binary_banner_is_hex() {
    let status = PortStatus::Opened { banner: Some(vec![0xff, 0x0a, 0xab]) };
    assert_eq!(status.describe(), "opened (banner: \"hex:ff aab\")");
}

#[test]
fn port_describe_pads_the_number_to_five_columns() {
    let p = Port { num: 80, status: PortStatus::Closed };
    assert_eq!(p.describe(), "   80: closed");
    let p = Port { num: 65535, status: PortStatus::Filtered };
    assert_eq!(p.describe(), "65535: filtered");
    let p = Port { num: 7, status: PortStatus::Opened { banner: None } };
    assert_eq!(p.describe(), "    7: opened");
}
