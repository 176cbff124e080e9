//! An asynchronous DNS toolkit core, written sans-I/O.
//!
//! The crate holds the decision logic of a unicast DNS resolver, a
//! multicast-DNS discovery engine, and the keyed future multiplexer both
//! are built on.  Every function here is a step of a state machine from
//! plain values to plain values: a transport shell performs the socket
//! operations and the suspension, hands packets and instants in, and takes
//! packets and wake-up requests out.

pub mod errors;
pub mod message;
pub mod mux;
pub mod nslookup;
pub mod mdns;
pub mod sysconf;
