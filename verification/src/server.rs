//! Where the listener binds.

use vstd::prelude::*;
use vstd::string::StringExecFns;
use crate::text::{decimal, decimal_string};

verus! {

/// The port that stands for the default port.
pub const PORT_SENTINEL: u16 = 1;

/// The default port.
pub const DEFAULT_PORT: u16 = 8080;

/// The port to listen on: the default port for the sentinel, else the
/// port given.
pub open spec fn effective_port(port: u16) -> u16 {
    if port == PORT_SENTINEL {
        DEFAULT_PORT
    } else {
        port
    }
}

/// The port to listen on.
pub fn listen_port(port: u16) -> (p: u16)
    ensures
        p == effective_port(port),
{
    if port == PORT_SENTINEL {
        DEFAULT_PORT
    } else {
        port
    }
}

/// The address to bind to: every interface in production, the loopback
/// interface in development.
pub fn bind_ip(production: bool) -> (ip: (u8, u8, u8, u8))
    ensures
        ip == if production {
            (0u8, 0u8, 0u8, 0u8)
        } else {
            (127u8, 0u8, 0u8, 1u8)
        },
{
    if production {
        (0, 0, 0, 0)
    } else {
        (127, 0, 0, 1)
    }
}

/// The text of a socket address: the host, a colon, the port.
pub fn listen_address(host: &str, port: u16) -> (address: String)
    ensures
        address@ == host@ + ":"@ + decimal(port as nat),
{
    let mut address = String::from_str(host);
    address.append(":");
    address.append(decimal_string(port as u128).as_str());
    address
}

} // verus!
