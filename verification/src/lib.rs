//! A TCP/TLS reverse proxy combined with an SSH-tunneled port-forwarding
//! bridge.
//!
//! The crate holds the decision logic of the system: HTTP request rewriting
//! with hop-by-hop header stripping and forwarding metadata, the readiness
//! retry discipline that turns would-block results into suspend/resume
//! points, the TLS and SSH session state machines, the bidirectional byte
//! splice, and the tunnel orchestration rules. The surrounding I/O (sockets,
//! TLS records, SSH transport) is driven by a thin shell that feeds events
//! into these functions and performs the actions they return.

pub mod duplex;
pub mod handler;
pub mod headers;
pub mod opt;
pub mod readiness;
pub mod settings;
pub mod text;
pub mod tls_state;
pub mod tunnel;
pub mod upstream;
