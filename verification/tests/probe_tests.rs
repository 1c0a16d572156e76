use tcp_scanner::probes::dns::{DnsProbe, DnsResponseSummary};
use tcp_scanner::probes::http::HttpProbe;
use tcp_scanner::probes::tls::{CertificateSummary, TlsProbe};
use tcp_scanner::probes::{
    first_recognized, is_preferred_port, probe_attempt_status, probe_plan, registry,
    ProbeAttempt, ProbeKind, ProbeStatus,
};
use tcp_scanner::tcp::{classify_port, ConnectOutcome, ReadOutcome};
use tcp_scanner::port::PortStatus;

#[test]
fn refusal_classifies_as_closed() {
    let p = classify_port(8080, Some(ConnectOutcome::Refused), None);
    assert_eq!(p.num, 8080);
    assert_eq!(p.status, PortStatus::Closed);
}

#[test]
fn connect_timeout_classifies_as_filtered() {
    let p = classify_port(8080, None, None);
    assert_eq!(p.status, PortStatus::Filtered);
}

#[test]
fn other_connect_error_classifies_as_filtered() {
    let p = classify_port(8080, Some(ConnectOutcome::OtherError), None);
    assert_eq!(p.status, PortStatus::Filtered);
}

#[test]
fn connected_with_bytes_has_banner() {
    let p = classify_port(
        22,
        Some(ConnectOutcome::Connected),
        Some(ReadOutcome::Data(b"SSH-2.0".to_vec())),
    );
    assert_eq!(p.status, PortStatus::Opened { banner: Some(b"SSH-2.0".to_vec()) });
}

#[test]
fn connected_with_empty_read_has_no_banner() {
    let p = classify_port(22, Some(ConnectOutcome::Connected), Some(ReadOutcome::Data(vec![])));
    assert_eq!(p.status, PortStatus::Opened { banner: None });
}

#[test]
fn connected_with_failed_or_timed_out_read_has_no_banner() {
    let p = classify_port(22, Some(ConnectOutcome::Connected), Some(ReadOutcome::Failed));
    assert_eq!(p.status, PortStatus::Opened { banner: None });
    let p = classify_port(22, Some(ConnectOutcome::Connected), None);
    assert_eq!(p.status, PortStatus::Opened { banner: None });
}

#[test]
fn registry_order_is_fixed() {
    assert_eq!(registry(), vec![ProbeKind::Http, ProbeKind::Dns, ProbeKind::Tls]);
}

#[test]
fn preferred_ports_per_probe() {
    for p in [80u16, 81, 3128, 8000, 8080] {
        assert!(is_preferred_port(ProbeKind::Http, p));
    }
    assert!(!is_preferred_port(ProbeKind::Http, 443));
    for p in [53u16, 5353] {
        assert!(is_preferred_port(ProbeKind::Dns, p));
    }
    assert!(!is_preferred_port(ProbeKind::Dns, 80));
    for p in [443u16, 465, 636, 993, 995, 8443] {
        assert!(is_preferred_port(ProbeKind::Tls, p));
    }
    assert!(!is_preferred_port(ProbeKind::Tls, 80));
}

#[test]
fn probe_names() {
    assert_eq!((HttpProbe).name(), "http");
    assert_eq!((DnsProbe).name(), "dns");
    assert_eq!((TlsProbe).name(), "tls");
}

#[test]
fn plan_puts_preferred_probes_first() {
    assert_eq!(probe_plan(80), vec![ProbeKind::Http, ProbeKind::Dns, ProbeKind::Tls]);
    assert_eq!(probe_plan(53), vec![ProbeKind::Dns, ProbeKind::Http, ProbeKind::Tls]);
    assert_eq!(probe_plan(443), vec![ProbeKind::Tls, ProbeKind::Http, ProbeKind::Dns]);
    assert_eq!(probe_plan(9999), vec![ProbeKind::Http, ProbeKind::Dns, ProbeKind::Tls]);
}

#[test]
fn dns_only_peer_on_port_80_is_found_in_the_second_pass() {
    // port 80: the HTTP probe is preferred and runs first, the peer speaks
    // only DNS, so the first pass finds nothing and the second pass wins
    let plan = probe_plan(80);
    assert_eq!(plan[0], ProbeKind::Http);
    let outcomes = vec![ProbeStatus::Unknown, ProbeStatus::Recognized, ProbeStatus::Unknown];
    let hit = first_recognized(&outcomes).expect("the DNS probe recognizes the peer");
    assert_eq!(plan[hit], ProbeKind::Dns);
}

#[test]
fn nothing_recognized_is_a_normal_outcome() {
    let outcomes = vec![ProbeStatus::Unknown, ProbeStatus::Unknown, ProbeStatus::Unknown];
    assert_eq!(first_recognized(&outcomes), None);
}

#[test]
fn recognition_stops_at_the_first_hit() {
    let outcomes = vec![ProbeStatus::Unknown, ProbeStatus::Recognized, ProbeStatus::Recognized];
    assert_eq!(first_recognized(&outcomes), Some(1));
}

#[test]
fn failed_or_timed_out_attempts_count_as_unknown() {
    assert_eq!(
        probe_attempt_status(ProbeAttempt::Finished(ProbeStatus::Recognized)),
        ProbeStatus::Recognized
    );
    assert_eq!(
        probe_attempt_status(ProbeAttempt::Finished(ProbeStatus::Unknown)),
        ProbeStatus::Unknown
    );
    assert_eq!(probe_attempt_status(ProbeAttempt::Failed), ProbeStatus::Unknown);
    assert_eq!(probe_attempt_status(ProbeAttempt::TimedOut), ProbeStatus::Unknown);
}

#[test]
fn nginx_response_is_recognized_with_its_server_header() {
    let probe = HttpProbe;
    let data = b"HTTP/1.1 200 OK\r\nServer: nginx\r\n\r\n";
    assert_eq!(probe.classify_response(data), ProbeStatus::Recognized);
    let lines = probe.search_interesting_headers(b"HTTP/1.1 200 OK\r\nServer: nginx\r\n\r\n");
    assert_eq!(lines, vec!["      - Server: nginx".to_string()]);
}

#[test]
fn powered_by_header_is_reported_too() {
    let headers = b"HTTP/1.1 200 OK\r\nServer: apache\r\nX-Powered-By: PHP/8.1\r\n\r\n";
    let lines = (HttpProbe).search_interesting_headers(headers);
    assert_eq!(
        lines,
        vec!["      - Server: apache".to_string(), "      - X-Powered-By: PHP/8.1".to_string()]
    );
}

#[test]
fn absent_headers_report_nothing() {
    let lines = (HttpProbe).search_interesting_headers(b"HTTP/1.1 204 No Content\r\n\r\n");
    assert!(lines.is_empty());
}

#[test]
fn minimal_status_line_is_recognized() {
    // the bare status line with the separator meets the recognition shape
    assert_eq!(
        (HttpProbe).classify_response(b"HTTP/1.1 200\r\n\r\n"),
        ProbeStatus::Recognized
    );
}

#[test]
fn binary_header_bytes_do_not_block_recognition() {
    let mut data = b"HTTP/1.1 200 OK\r\nServer: ".to_vec();
    data.extend_from_slice(&[0xff, 0xfe]);
    data.extend_from_slice(b"\r\n\r\n");
    let probe = HttpProbe;
    assert_eq!(probe.classify_response(&data), ProbeStatus::Recognized);
    // the one header line is not well-formed text, so it is left out
    assert!(probe.search_interesting_headers(&data).is_empty());
}

#[test]
fn short_or_foreign_responses_are_unknown() {
    let probe = HttpProbe;
    assert_eq!(probe.classify_response(b""), ProbeStatus::Unknown);
    assert_eq!(probe.classify_response(b"HTTP/1.1 200"), ProbeStatus::Unknown);
    assert_eq!(probe.classify_response(b"SSH-2.0-OpenSSH_8.9 hello\r\n\r\n"), ProbeStatus::Unknown);
    // no three-digit status code
    assert_eq!(probe.classify_response(b"HTTP/1.1 ok, really\r\n\r\n"), ProbeStatus::Unknown);
    // no header/body separator within the bytes read
    assert_eq!(probe.classify_response(b"HTTP/1.1 200 OK\r\nServer: x\r\n"), ProbeStatus::Unknown);
}

#[test]
fn http_request_has_the_exact_wire_shape() {
    let req = (HttpProbe).build_request("10.0.0.1", 8080, "scanner-test");
    assert_eq!(
        req,
        "GET / HTTP/1.1\r\nHost: 10.0.0.1:8080\r\nUser-Agent: scanner-test\r\nConnection: Close\r\n\r\n"
    );
}

#[test]
fn dns_exchange_outcomes() {
    let probe = DnsProbe;
    let (status, report) = probe.evaluate_exchange(None, "1.2.3.4");
    assert_eq!(status, ProbeStatus::Unknown);
    assert!(report.is_none());

    let (status, report) = probe.evaluate_exchange(Some(DnsResponseSummary { ptr: None }), "1.2.3.4");
    assert_eq!(status, ProbeStatus::Recognized);
    assert!(report.is_none());

    let summary = DnsResponseSummary { ptr: Some("host.example.com.".to_string()) };
    let (status, report) = probe.evaluate_exchange(Some(summary), "1.2.3.4");
    assert_eq!(status, ProbeStatus::Recognized);
    assert_eq!(report.unwrap(), "      - PTR(1.2.3.4) = host.example.com.");
}

#[test]
fn tls_handshake_decides_recognition() {
    let probe = TlsProbe;
    assert_eq!(probe.classify_handshake(true), ProbeStatus::Recognized);
    assert_eq!(probe.classify_handshake(false), ProbeStatus::Unknown);
}

#[test]
fn validity_window_flag() {
    let probe = TlsProbe;
    assert!(probe.window_contains(0, 100, 50));
    assert!(probe.window_contains(0, 100, 0));
    assert!(probe.window_contains(0, 100, 100));
    assert!(!probe.window_contains(0, 100, 101));
    assert!(!probe.window_contains(50, 100, 49));
}

#[test]
fn garbage_bytes_are_no_certificate() {
    assert!((TlsProbe).summarize_certificate(&[0u8, 1, 2, 3]).is_none());
}

#[test]
fn certificate_report_lines() {
    let probe = TlsProbe;
    let summary = CertificateSummary {
        issuer: "CN=Example CA".to_string(),
        subject: "CN=example.com".to_string(),
        not_before: 0,
        not_after: 86400,
    };
    let lines = probe.certificate_report(&summary, 3600);
    assert_eq!(lines.len(), 3);
    assert_eq!(lines[0], "      - issuer : CN=Example CA");
    assert_eq!(lines[1], "      - subject: CN=example.com");
    assert_eq!(
        lines[2],
        "      - dates  : between 1970-01-01 00:00:00 +00:00 and 1970-01-02 00:00:00 +00:00 (valid)"
    );
    let expired = probe.certificate_report(&summary, 100000);
    assert!(expired[2].ends_with("(invalid)"));
}
