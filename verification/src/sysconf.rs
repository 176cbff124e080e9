//! The system-wide nameserver, read out of the resolver configuration.
//!
//! The shell reads the configuration file and hands its bytes in; the
//! decision — which endpoint the resolver should talk to — is taken here.

use vstd::prelude::*;
use crate::errors::Error;
use crate::message::{IpAddress, SocketAddress};

verus! {

/// The nameserver addresses a resolver configuration names, in order, or
/// `None` where the bytes are no valid configuration.
pub uninterp spec fn resolv_nameservers(b: Seq<u8>) -> Option<Seq<IpAddress>>;

/// Relies on `resolv_conf::Config::parse` and its `nameservers` field:
/// parsing depends on the bytes alone, and each address is carried over
/// one for one.
#[verifier::external_body]
fn parse_nameservers(config: &Vec<u8>) -> (r: Option<Vec<IpAddress>>)
    ensures
        match r {
            Some(v) => resolv_nameservers(config@) == Some(v@),
            None => resolv_nameservers(config@) is None,
        },
{
    match resolv_conf::Config::parse(config) {
        Ok(c) => Some(
            c.nameservers.iter().map(|ip| match ip {
                resolv_conf::ScopedIp::V4(a) => IpAddress::V4(u32::from(*a)),
                resolv_conf::ScopedIp::V6(a, _) => IpAddress::V6(u128::from(*a)),
            }).collect(),
        ),
        Err(_) => None,
    }
}

/// The endpoint of the system-wide DNS nameserver: the first nameserver
/// the given resolver configuration names, on the standard DNS port 53.
///
/// Fails with [`Error::Malformed`] where the bytes are no valid
/// configuration, and with [`Error::SysWideNameServer`] where the
/// configuration names no nameserver at all.
pub fn name_server(config: &Vec<u8>) -> (r: Result<SocketAddress, Error>)
    ensures
        match resolv_nameservers(config@) {
            None => r == Err::<SocketAddress, Error>(Error::Malformed),
            Some(list) => if list.len() == 0 {
                r == Err::<SocketAddress, Error>(Error::SysWideNameServer)
            } else {
                r == Ok::<SocketAddress, Error>(SocketAddress { ip: list[0], port: 53 })
            },
        },
{
    match parse_nameservers(config) {
        Some(list) => {
            if list.len() == 0 {
                Err(Error::SysWideNameServer)
            } else {
                Ok(SocketAddress { ip: list[0], port: 53 })
            }
        },
        None => Err(Error::Malformed),
    }
}

} // verus!
