//! A verified core for a concurrent TCP port scanner.
//!
//! The library holds the scanning and protocol-identification logic: the
//! compact port set, the port-specification parser, the admission limiter's
//! state machine, the deadline model, the connect/read classification, and
//! the three protocol probes' wire-level parsing and reporting. The
//! surrounding process (sockets, timers, tasks) drives these functions and
//! performs the actual I/O.

pub mod port;
pub mod portspec;
pub mod probes;
pub mod tcp;
pub mod text;
pub mod utils;
