//! The HTTP probe: sends a plain request and recognizes the peer by the
//! shape of its response.
//!
//! A response is recognized exactly when it starts with the `HTTP/1.1 `
//! prefix followed by a three-digit status code and contains the
//! header/body separator within the bytes read. On recognition the
//! `Server` and `X-Powered-By` header values are extracted for the
//! report; a header line whose bytes are not well-formed text is left out
//! of the report, without affecting recognition.

use vstd::prelude::*;

verus! {

use vstd::utf8::{valid_utf8, decode_utf8};
use crate::probes::{ProbeKind, ProbeStatus, preferred_spec};
use crate::portspec::is_digit;
use crate::text::{
    first_match_from, find_sub, lemma_first_match_from, bytes_as_str, push_decimal, dec_rep,
};

/// Probes for HTTP servers.
pub struct HttpProbe;

/// The bytes of `HTTP/1.1 `, which every recognized response starts with.
pub open spec fn http_prefix() -> Seq<u8> {
    seq![72u8, 84u8, 84u8, 80u8, 47u8, 49u8, 46u8, 49u8, 32u8]
}

/// The header/body separator: an empty line.
pub open spec fn header_sep() -> Seq<u8> {
    seq![13u8, 10u8, 13u8, 10u8]
}

/// A line break.
pub open spec fn crlf() -> Seq<u8> {
    seq![13u8, 10u8]
}

/// The bytes of `Server: `.
pub open spec fn server_pattern() -> Seq<u8> {
    seq![83u8, 101u8, 114u8, 118u8, 101u8, 114u8, 58u8, 32u8]
}

/// The bytes of `X-Powered-By: `.
pub open spec fn powered_pattern() -> Seq<u8> {
    seq![
        88u8, 45u8, 80u8, 111u8, 119u8, 101u8, 114u8, 101u8, 100u8, 45u8, 66u8, 121u8, 58u8,
        32u8,
    ]
}

/// Whether a response's bytes identify an HTTP server: the prefix, a
/// three-digit status code right after it, and the header/body separator
/// somewhere in the bytes read.
pub open spec fn http_recognized(data: Seq<u8>) -> bool {
    &&& data.len() >= 12
    &&& data.take(9) == http_prefix()
    &&& is_digit(data[9])
    &&& is_digit(data[10])
    &&& is_digit(data[11])
    &&& first_match_from(data, header_sep(), 0) >= 0
}

/// One interesting header's slice of the header section: from the start of
/// its name through the end of its value, when the name occurs and a line
/// break follows it.
pub open spec fn header_line(h: Seq<u8>, pat: Seq<u8>) -> Option<Seq<u8>> {
    let s = first_match_from(h, pat, 0);
    if s >= 0 {
        let e = first_match_from(h, crlf(), s + pat.len());
        if e >= 0 {
            Some(h.subrange(s, e))
        } else {
            None
        }
    } else {
        None
    }
}

/// The report lines for one interesting header: one indented line when the
/// header is present and its slice is well-formed text, none otherwise.
pub open spec fn report_for(h: Seq<u8>, pat: Seq<u8>) -> Seq<Seq<char>> {
    match header_line(h, pat) {
        Some(lb) => if valid_utf8(lb) {
            seq!["      - "@ + decode_utf8(lb)]
        } else {
            Seq::empty()
        },
        None => Seq::empty(),
    }
}

/// The report lines for the header section: `Server` first, then
/// `X-Powered-By`.
pub open spec fn header_report(h: Seq<u8>) -> Seq<Seq<char>> {
    report_for(h, server_pattern()) + report_for(h, powered_pattern())
}

/// The request the probe sends.
pub open spec fn http_request_text(host: Seq<char>, port: u16, ua: Seq<char>) -> Seq<char> {
    "GET / HTTP/1.1\r\nHost: "@ + host + ":"@ + dec_rep(port as nat) + "\r\nUser-Agent: "@
        + ua + "\r\nConnection: Close\r\n\r\n"@
}

/// Extracts one interesting header's report line.
fn extract_one(bytes: &[u8], pat: &[u8]) -> (r: Option<String>)
    ensures
        match header_line(bytes@, pat@) {
            Some(lb) => {
                &&& valid_utf8(lb) ==> (r matches Some(s) && s@ == "      - "@ + decode_utf8(
                    lb,
                ))
                &&& !valid_utf8(lb) ==> r is None
            },
            None => r is None,
        },
{
    let mut sep: Vec<u8> = Vec::new();
    sep.push(13);
    sep.push(10);
    proof {
        assert(sep@ =~= crlf());
    }
    match find_sub(bytes, pat, 0) {
        None => None,
        Some(s) => {
            let hay_len = bytes.len();
            proof {
                lemma_first_match_from(bytes@, pat@, 0);
                assert(crate::text::match_at(bytes@, pat@, s as int));
                assert(s + pat@.len() <= hay_len);
            }
            match find_sub(bytes, sep.as_slice(), s + pat.len()) {
                None => None,
                Some(e) => {
                    proof {
                        lemma_first_match_from(bytes@, crlf(), s + pat.len());
                    }
                    let seg = &bytes[s..e];
                    proof {
                        assert(seg@ =~= bytes@.subrange(s as int, e as int));
                    }
                    match bytes_as_str(seg) {
                        None => None,
                        Some(txt) => {
                            let mut line = String::from_str("      - ");
                            line.append(txt);
                            Some(line)
                        },
                    }
                },
            }
        },
    }
}

impl HttpProbe {
    /// The protocol's name.
    pub fn name(&self) -> (r: &'static str)
        ensures
            r@ == "http"@,
    {
        "http"
    }

    /// The protocol's favorite ports.
    pub fn is_prefered_port(&self, port: u16) -> (r: bool)
        ensures
            r == preferred_spec(ProbeKind::Http, port),
    {
        match port {
            80 | 81 | 3128 | 8000 | 8080 => true,
            _ => false,
        }
    }

    /// The request to send to the peer.
    pub fn build_request(&self, host: &str, port: u16, user_agent: &str) -> (r: String)
        ensures
            r@ == http_request_text(host@, port, user_agent@),
    {
        let mut out = String::from_str("GET / HTTP/1.1\r\nHost: ");
        out.append(host);
        out.append(":");
        push_decimal(&mut out, port);
        out.append("\r\nUser-Agent: ");
        out.append(user_agent);
        out.append("\r\nConnection: Close\r\n\r\n");
        proof {
            assert(out@ =~= http_request_text(host@, port, user_agent@));
        }
        out
    }

    /// Classifies the peer's response bytes.
    pub fn classify_response(&self, data: &[u8]) -> (r: ProbeStatus)
        ensures
            r is Recognized <==> http_recognized(data@),
    {
        if data.len() < 12 {
            return ProbeStatus::Unknown;
        }
        if data[0] != 72 || data[1] != 84 || data[2] != 84 || data[3] != 80 || data[4] != 47
            || data[5] != 49 || data[6] != 46 || data[7] != 49 || data[8] != 32 {
            proof {
                assert(data@.take(9) != http_prefix()) by {
                    if data@.take(9) == http_prefix() {
                        assert(data@[0] == http_prefix()[0]);
                        assert(data@[1] == http_prefix()[1]);
                        assert(data@[2] == http_prefix()[2]);
                        assert(data@[3] == http_prefix()[3]);
                        assert(data@[4] == http_prefix()[4]);
                        assert(data@[5] == http_prefix()[5]);
                        assert(data@[6] == http_prefix()[6]);
                        assert(data@[7] == http_prefix()[7]);
                        assert(data@[8] == http_prefix()[8]);
                    }
                }
            }
            return ProbeStatus::Unknown;
        }
        proof {
            assert(data@.take(9) =~= http_prefix());
        }
        if data[9] < 48 || data[9] > 57 || data[10] < 48 || data[10] > 57 || data[11] < 48
            || data[11] > 57 {
            return ProbeStatus::Unknown;
        }
        let mut sep: Vec<u8> = Vec::new();
        sep.push(13);
        sep.push(10);
        sep.push(13);
        sep.push(10);
        proof {
            assert(sep@ =~= header_sep());
        }
        match find_sub(data, sep.as_slice(), 0) {
            None => ProbeStatus::Unknown,
            Some(_) => ProbeStatus::Recognized,
        }
    }

    /// Extracts the interesting headers' report lines from the header
    /// section's bytes.
    pub fn search_interesting_headers(&self, headers: &[u8]) -> (r: Vec<String>)
        ensures
            r@.len() == header_report(headers@).len(),
            forall|i: int| 0 <= i < r@.len() ==> r@[i]@ == header_report(headers@)[i],
    {
        let bytes = headers;
        let mut server_pat: Vec<u8> = Vec::new();
        server_pat.push(83);
        server_pat.push(101);
        server_pat.push(114);
        server_pat.push(118);
        server_pat.push(101);
        server_pat.push(114);
        server_pat.push(58);
        server_pat.push(32);
        proof {
            assert(server_pat@ =~= server_pattern());
        }
        let mut powered_pat: Vec<u8> = Vec::new();
        powered_pat.push(88);
        powered_pat.push(45);
        powered_pat.push(80);
        powered_pat.push(111);
        powered_pat.push(119);
        powered_pat.push(101);
        powered_pat.push(114);
        powered_pat.push(101);
        powered_pat.push(100);
        powered_pat.push(45);
        powered_pat.push(66);
        powered_pat.push(121);
        powered_pat.push(58);
        powered_pat.push(32);
        proof {
            assert(powered_pat@ =~= powered_pattern());
        }
        let mut out: Vec<String> = Vec::new();
        if let Some(line) = extract_one(bytes, server_pat.as_slice()) {
            out.push(line);
        }
        if let Some(line) = extract_one(bytes, powered_pat.as_slice()) {
            out.push(line);
        }
        out
    }
}

} // verus!
