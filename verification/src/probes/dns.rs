//! The DNS probe: asks the peer for the reverse-DNS name of the target
//! and recognizes it by whether a well-formed answer comes back.
//!
//! The runtime performs the query exchange through its DNS client; the
//! probe is recognized exactly when the exchange yields a well-formed
//! response. A response whose query identifier does not match never
//! surfaces from the exchange: it is dropped there and the attempt ends
//! as a timeout, which counts as `Unknown`.

use vstd::prelude::*;

verus! {

use crate::probes::{ProbeKind, ProbeStatus, preferred_spec};

/// Probes for DNS servers.
pub struct DnsProbe;

/// What the query exchange yielded: the answer's PTR name, when the
/// response carried one.
#[derive(Debug)]
pub struct DnsResponseSummary {
    pub ptr: Option<String>,
}

/// The report line for a resolved PTR record.
pub open spec fn ptr_report_text(ip: Seq<char>, name: Seq<char>) -> Seq<char> {
    "      - PTR("@ + ip + ") = "@ + name
}

impl DnsProbe {
    /// The protocol's name.
    pub fn name(&self) -> (r: &'static str)
        ensures
            r@ == "dns"@,
    {
        "dns"
    }

    /// The protocol's favorite ports.
    pub fn is_prefered_port(&self, port: u16) -> (r: bool)
        ensures
            r == preferred_spec(ProbeKind::Dns, port),
    {
        match port {
            53 | 5353 => true,
            _ => false,
        }
    }

    /// Settles one query exchange: a well-formed response is recognized,
    /// and when it resolved a PTR name, the report line for it is
    /// produced; a failed exchange is `Unknown` with nothing to report.
    pub fn evaluate_exchange(&self, response: Option<DnsResponseSummary>, ip_text: &str) -> (r:
        (ProbeStatus, Option<String>))
        ensures
            r.0 is Recognized <==> response is Some,
            match response {
                Some(summary) => match summary.ptr {
                    Some(name) => r.1 matches Some(line) && line@ == ptr_report_text(
                        ip_text@,
                        name@,
                    ),
                    None => r.1 is None,
                },
                None => r.1 is None,
            },
    {
        match response {
            Some(summary) => {
                let report = match summary.ptr {
                    Some(name) => {
                        let mut line = String::from_str("      - PTR(");
                        line.append(ip_text);
                        line.append(") = ");
                        line.append(name.as_str());
                        proof {
                            assert(line@ =~= ptr_report_text(ip_text@, name@));
                        }
                        Some(line)
                    },
                    None => None,
                };
                (ProbeStatus::Recognized, report)
            },
            None => (ProbeStatus::Unknown, None),
        }
    }
}

} // verus!
