//! The TLS probe: recognizes the peer by whether a handshake completes,
//! and inspects the leaf certificate it presented.
//!
//! The runtime performs the handshake with a verifier that accepts every
//! certificate, identification being the goal, and hands the leaf's DER
//! bytes here. Decoding the certificate and rendering its dates rely on
//! the certificate parser and the calendar library; the validity flag is
//! computed and proved here, by comparing the window against the present
//! time in whole seconds.

use vstd::prelude::*;

verus! {

use crate::probes::{ProbeKind, ProbeStatus, preferred_spec};

/// Probes for TLS servers.
pub struct TlsProbe;

/// What the probe reads off the peer's leaf certificate.
#[derive(Debug)]
pub struct CertificateSummary {
    pub issuer: String,
    pub subject: String,
    pub not_before: i64,
    pub not_after: i64,
}

/// What decoding a DER certificate yields: the issuer's and subject's
/// distinguished names as text, and the validity window's bounds in
/// seconds since the epoch — or nothing when the bytes do not decode.
/// The certificate parser fixes all of it as a function of the bytes
/// alone.
pub uninterp spec fn cert_fields_of(der: Seq<u8>) -> Option<(Seq<char>, Seq<char>, int, int)>;

/// Relies on x509_parser's `parse_x509_certificate`, which decodes one
/// DER certificate and returns an error rather than panicking on
/// malformed bytes, and, on the parsed leaf, on `X509Certificate::issuer`
/// and `::subject` with `X509Name`'s display form, and on `validity` with
/// `ASN1Time::timestamp`. Every field depends on the bytes alone.
#[verifier::external_body]
fn read_certificate(der: &[u8]) -> (r: Option<CertificateSummary>)
    ensures
        r is Some <==> cert_fields_of(der@) is Some,
        r matches Some(s) ==> cert_fields_of(der@) == Some(
            (s.issuer@, s.subject@, s.not_before as int, s.not_after as int),
        ),
{
    match x509_parser::parse_x509_certificate(der) {
        Ok((_, cert)) => Some(CertificateSummary {
            issuer: cert.issuer().to_string(),
            subject: cert.subject().to_string(),
            not_before: cert.validity().not_before.timestamp(),
            not_after: cert.validity().not_after.timestamp(),
        }),
        Err(_) => None,
    }
}

/// Relies on time's `OffsetDateTime::now_utc` and `unix_timestamp`: the
/// present moment, in seconds since the epoch. Nothing can be promised of
/// the clock's reading.
#[verifier::external_body]
pub fn now_timestamp() -> i64 {
    time::OffsetDateTime::now_utc().unix_timestamp()
}

/// The calendar rendering of a timestamp; what it looks like is fixed by
/// the calendar library, as a function of the timestamp alone.
pub uninterp spec fn timestamp_text(ts: i64) -> Seq<char>;

/// Relies on time's `OffsetDateTime::from_unix_timestamp` and `format`:
/// renders the timestamp as a calendar date and time with its offset. The
/// result depends on the timestamp alone.
#[verifier::external_body]
fn format_timestamp(ts: i64) -> (r: String)
    ensures
        r@ == timestamp_text(ts),
{
    let fmt = time::format_description::parse(
        "[year]-[month]-[day] [hour]:[minute]:[second] [offset_hour sign:mandatory]:[offset_minute]",
    );
    match (time::OffsetDateTime::from_unix_timestamp(ts), fmt) {
        (Ok(dt), Ok(f)) => dt.format(&f).unwrap_or_default(),
        _ => String::new(),
    }
}

/// The dates line of the certificate report: the validity window and
/// whether the present time falls inside it.
pub open spec fn validity_line_text(nb: i64, na: i64, now: i64) -> Seq<char> {
    "      - dates  : between "@ + timestamp_text(nb) + " and "@ + timestamp_text(na) + " ("@
        + (if nb <= now && now <= na {
        "valid"@
    } else {
        "invalid"@
    }) + ")"@
}

impl TlsProbe {
    /// The protocol's name.
    pub fn name(&self) -> (r: &'static str)
        ensures
            r@ == "tls"@,
    {
        "tls"
    }

    /// The protocol's favorite ports.
    pub fn is_prefered_port(&self, port: u16) -> (r: bool)
        ensures
            r == preferred_spec(ProbeKind::Tls, port),
    {
        match port {
            443 | 465 | 636 | 993 | 995 | 8443 => true,
            _ => false,
        }
    }

    /// Settles one handshake attempt: a completed handshake is the
    /// recognition; a failed one is `Unknown`.
    pub fn classify_handshake(&self, completed: bool) -> (r: ProbeStatus)
        ensures
            r is Recognized <==> completed,
    {
        if completed {
            ProbeStatus::Recognized
        } else {
            ProbeStatus::Unknown
        }
    }

    /// Whether the validity window contains the given moment, as the
    /// report's valid/invalid flag.
    pub fn window_contains(&self, not_before: i64, not_after: i64, now: i64) -> (r: bool)
        ensures
            r <==> not_before <= now <= not_after,
    {
        not_before <= now && now <= not_after
    }

    /// Reads the peer's certificate: its issuer, subject and validity
    /// window, exactly when the bytes decode as a certificate, and
    /// nothing otherwise.
    pub fn summarize_certificate(&self, der: &[u8]) -> (r: Option<CertificateSummary>)
        ensures
            r is Some <==> cert_fields_of(der@) is Some,
            r matches Some(s) ==> cert_fields_of(der@) == Some(
                (s.issuer@, s.subject@, s.not_before as int, s.not_after as int),
            ),
    {
        read_certificate(der)
    }

    /// The three report lines for a certificate: issuer, subject, and the
    /// validity window with its flag against the given present time.
    pub fn certificate_report(&self, summary: &CertificateSummary, now: i64) -> (r: Vec<String>)
        ensures
            r@.len() == 3,
            r@[0]@ == "      - issuer : "@ + summary.issuer@,
            r@[1]@ == "      - subject: "@ + summary.subject@,
            r@[2]@ == validity_line_text(summary.not_before, summary.not_after, now),
    {
        let mut out: Vec<String> = Vec::new();
        let mut issuer_line = String::from_str("      - issuer : ");
        issuer_line.append(summary.issuer.as_str());
        out.push(issuer_line);
        let mut subject_line = String::from_str("      - subject: ");
        subject_line.append(summary.subject.as_str());
        out.push(subject_line);
        let mut dates_line = String::from_str("      - dates  : between ");
        let nb_text = format_timestamp(summary.not_before);
        dates_line.append(nb_text.as_str());
        dates_line.append(" and ");
        let na_text = format_timestamp(summary.not_after);
        dates_line.append(na_text.as_str());
        dates_line.append(" (");
        if self.window_contains(summary.not_before, summary.not_after, now) {
            dates_line.append("valid");
        } else {
            dates_line.append("invalid");
        }
        dates_line.append(")");
        proof {
            assert(dates_line@ =~= validity_line_text(
                summary.not_before,
                summary.not_after,
                now,
            ));
        }
        out.push(dates_line);
        out
    }
}

} // verus!
