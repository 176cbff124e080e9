//! The system-wide nameserver, read out of resolver configuration bytes.

use futures_dns::errors::Error;
use futures_dns::message::{IpAddress, SocketAddress};
use futures_dns::sysconf::name_server;

#[test]
fn test_first_nameserver_on_port_53() {
    let config = b"# generated\nnameserver 1.2.3.4\nnameserver 8.8.8.8\n".to_vec();
    assert_eq!(
        name_server(&config),
        Ok(SocketAddress { ip: IpAddress::V4(0x01020304), port: 53 })
    );
}

#[test]
fn test_v6_nameserver() {
    let config = b"nameserver ::1\n".to_vec();
    assert_eq!(name_server(&config), Ok(SocketAddress { ip: IpAddress::V6(1), port: 53 }));
}

#[test]
fn test_no_nameserver() {
    let config = b"search example.org\n".to_vec();
    assert_eq!(name_server(&config), Err(Error::SysWideNameServer));
}

#[test]
fn test_unreadable_configuration() {
    let config = b"nameserver not-an-address\n".to_vec();
    assert_eq!(name_server(&config), Err(Error::Malformed));
}
