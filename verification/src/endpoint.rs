//! Where a server's remote console listens.

use vstd::prelude::*;
use crate::config::ServerConfig;
use crate::connection::ConnError;
use crate::numerals::{all_digits, bounded_value, decimal_value, only_digits};
use crate::text::{chars_of, split, split_on};

verus! {

/// An IPv4 address and a port.
#[derive(Clone, Copy, Debug, PartialEq, Eq, Structural)]
pub struct SocketAddress {
    pub a: u8,
    pub b: u8,
    pub c: u8,
    pub d: u8,
    pub port: u16,
}

/// A single dot, which parts the four numbers of an address.
pub open spec fn dot() -> Seq<char> {
    seq!['.']
}

/// The number between two dots of an address: one to three digits, without
/// a zero in front of another digit, and at most 255.
pub open spec fn octet_of(part: Seq<char>) -> Option<u8> {
    if 1 <= part.len() <= 3 && all_digits(part) && (part.len() == 1 || part[0] != '0')
        && decimal_value(part) <= 255 {
        Some(decimal_value(part) as u8)
    } else {
        None
    }
}

/// The four numbers of a dotted IPv4 address. Nothing but four numbers and
/// three dots is one.
pub open spec fn ipv4_of(host: Seq<char>) -> Option<(u8, u8, u8, u8)> {
    let parts = split_on(host, dot());
    if parts.len() == 4 && octet_of(parts[0]) is Some && octet_of(parts[1]) is Some && octet_of(
        parts[2],
    ) is Some && octet_of(parts[3]) is Some {
        Some(
            (
                octet_of(parts[0])->Some_0,
                octet_of(parts[1])->Some_0,
                octet_of(parts[2])->Some_0,
                octet_of(parts[3])->Some_0,
            ),
        )
    } else {
        None
    }
}

/// Where the console of a server listens, if its host is an address.
pub open spec fn address_of(config: ServerConfig) -> Result<SocketAddress, ConnError> {
    match ipv4_of(config.host@) {
        Some((a, b, c, d)) => Ok(SocketAddress { a, b, c, d, port: config.rcon_port }),
        None => Err(ConnError::AddressParse),
    }
}

/// Reads one of the four numbers of an address.
pub fn parse_octet(part: &str) -> (octet: Option<u8>)
    ensures
        octet == octet_of(part@),
{
    let text = chars_of(part);
    let len = text.len();
    if len < 1 || len > 3 {
        return None;
    }
    proof {
        assert(text@.subrange(0, len as int) =~= part@);
    }
    if !only_digits(&text, 0, len) {
        return None;
    }
    if len > 1 && text[0] == '0' {
        return None;
    }
    match bounded_value(&text, 0, len, 255) {
        Some(n) => Some(n as u8),
        None => None,
    }
}

/// Reads a dotted IPv4 address.
pub fn parse_ipv4(host: &str) -> (octets: Option<(u8, u8, u8, u8)>)
    ensures
        octets == ipv4_of(host@),
{
    proof {
        reveal_strlit(".");
        assert("."@ =~= dot());
    }
    let parts = split(host, ".");
    if parts.len() != 4 {
        return None;
    }
    let a = match parse_octet(parts[0].as_str()) {
        Some(n) => n,
        None => {
            return None;
        },
    };
    let b = match parse_octet(parts[1].as_str()) {
        Some(n) => n,
        None => {
            return None;
        },
    };
    let c = match parse_octet(parts[2].as_str()) {
        Some(n) => n,
        None => {
            return None;
        },
    };
    let d = match parse_octet(parts[3].as_str()) {
        Some(n) => n,
        None => {
            return None;
        },
    };
    Some((a, b, c, d))
}

/// Where the console of the server of `config` listens.
///
/// Fails with `AddressParse` where the host is no dotted IPv4 address.
pub fn console_address(config: &ServerConfig) -> (r: Result<SocketAddress, ConnError>)
    ensures
        r == address_of(*config),
{
    match parse_ipv4(config.host.as_str()) {
        Some((a, b, c, d)) => Ok(SocketAddress { a, b, c, d, port: config.rcon_port }),
        None => Err(ConnError::AddressParse),
    }
}

} // verus!
