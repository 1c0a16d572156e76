//! The scanner and the connect-and-probe worker's classification.
//!
//! One worker handles one port: it connects under the connect timeout,
//! optionally reads a banner under the read timeout, and classifies the
//! port. The connecting and reading are the runtime's; how each outcome
//! classifies is fixed and proved here, so a worker never lets a failure
//! escape as anything but a `PortStatus`.

use vstd::prelude::*;

verus! {

use crate::port::{Port, PortStatus, PortsList};

/// How a raced connection attempt ended, when it ended before the timer.
#[derive(Debug)]
pub enum ConnectOutcome {
    /// The TCP connection was established.
    Connected,
    /// The peer actively refused the connection.
    Refused,
    /// The attempt failed some other way (unreachable, reset, ...).
    OtherError,
}

/// How a raced banner read ended, when it ended before the timer.
#[derive(Debug)]
pub enum ReadOutcome {
    /// The read returned these bytes (possibly none).
    Data(Vec<u8>),
    /// The read failed.
    Failed,
}

/// The status a worker assigns, given how the connection attempt ended
/// (`None` for a timeout) and, when connected, how the banner read ended
/// (`None` for a timeout).
pub open spec fn classified_status(
    connect: Option<ConnectOutcome>,
    read: Option<ReadOutcome>,
) -> PortStatus {
    match connect {
        Some(ConnectOutcome::Connected) => PortStatus::Opened {
            banner: match read {
                Some(ReadOutcome::Data(data)) => if data@.len() > 0 {
                    Some(data)
                } else {
                    None
                },
                _ => None,
            },
        },
        Some(ConnectOutcome::Refused) => PortStatus::Closed,
        Some(ConnectOutcome::OtherError) => PortStatus::Filtered,
        None => PortStatus::Filtered,
    }
}

/// Classifies one port from its connect and read outcomes: a timeout is
/// `Filtered`, a refusal `Closed`, any other failure `Filtered`; on a
/// successful connection the port is `Opened`, with the read's bytes as
/// the banner when any arrived.
pub fn classify_port(
    num: u16,
    connect: Option<ConnectOutcome>,
    read: Option<ReadOutcome>,
) -> (p: Port)
    ensures
        p.num == num,
        p.status == classified_status(connect, read),
{
    let status = match connect {
        Some(ConnectOutcome::Connected) => {
            let banner = match read {
                Some(ReadOutcome::Data(data)) => {
                    if data.len() > 0 {
                        Some(data)
                    } else {
                        None
                    }
                },
                _ => None,
            };
            PortStatus::Opened { banner }
        },
        Some(ConnectOutcome::Refused) => PortStatus::Closed,
        Some(ConnectOutcome::OtherError) => PortStatus::Filtered,
        None => PortStatus::Filtered,
    };
    Port { num, status }
}

/// Scans the ports of its list, one worker per port, under the admission
/// gate. The fan-out and the sockets live with the runtime; the list and
/// the classification live here.
#[derive(Debug)]
pub struct TcpScanner {
    ports: PortsList,
}

impl TcpScanner {
    /// A scanner over the given port set.
    pub fn new(ports: PortsList) -> (s: Self)
        ensures
            s.ports() == ports,
    {
        Self { ports }
    }

    /// The port set to scan.
    pub closed spec fn ports(self) -> PortsList {
        self.ports
    }

    /// The port set to scan.
    pub fn ports_list(&self) -> (r: &PortsList)
        ensures
            *r == self.ports(),
    {
        &self.ports
    }
}

} // verus!
