//! Where the local service listens, and what its clients are told to call.
use vstd::prelude::*;
use crate::text::{decimal, push_u64};
use crate::words::{number, parse_u16, within};

verus! {

/// The port that the service uses unless told otherwise.
pub const DEFAULT_SERVICE_PORT: u16 = 4002;

/// The loopback address with the given port.
pub fn default_serve_addr(port: u16) -> (r: String)
    ensures
        r@ == "127.0.0.1:"@ + decimal(port as nat),
{
    let mut out = "127.0.0.1:".to_owned();
    push_u64(&mut out, port as u64);
    out
}

/// The address to serve on: none unless serving was asked for, the explicit
/// address if there is one, else the loopback address with the given port.
pub fn resolve_serve_addr(
    serve_requested: bool,
    explicit_serve_addr: Option<String>,
    serve_port: u16,
) -> (r: Option<String>)
    ensures
        r is Some == serve_requested,
        r matches Some(addr) ==> addr@ == (match explicit_serve_addr {
            Some(explicit) => explicit@,
            None => "127.0.0.1:"@ + decimal(serve_port as nat),
        }),
{
    if !serve_requested {
        None
    } else {
        match explicit_serve_addr {
            Some(addr) => Some(addr),
            None => Some(default_serve_addr(serve_port)),
        }
    }
}

/// The loopback URL with the given port.
pub fn default_server_url(port: u16) -> (r: String)
    ensures
        r@ == "http://127.0.0.1:"@ + decimal(port as nat),
{
    let mut out = "http://127.0.0.1:".to_owned();
    push_u64(&mut out, port as u64);
    out
}

/// The URL of the service: the explicit one if there is one, else the loopback
/// URL with the given port.
pub fn resolve_server_url(explicit_server_url: Option<String>, server_port: u16) -> (r: String)
    ensures
        r@ == (match explicit_server_url {
            Some(explicit) => explicit@,
            None => "http://127.0.0.1:"@ + decimal(server_port as nat),
        }),
{
    match explicit_server_url {
        Some(url) => url,
        None => default_server_url(server_port),
    }
}

/// The port that a text names.
pub fn parse_port(value: &str) -> (r: Result<u16, String>)
    ensures
        match r {
            Ok(n) => within(number(value@, false), 0, u16::MAX as int) == Some(n as int),
            Err(e) => within(number(value@, false), 0, u16::MAX as int) is None && e@
                == "Invalid port: "@ + value@,
        },
{
    match parse_u16(value) {
        Some(n) => Ok(n),
        None => {
            let mut out = "Invalid port: ".to_owned();
            out.append(value);
            Err(out)
        },
    }
}

} // verus!
