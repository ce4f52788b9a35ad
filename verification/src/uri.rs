//! Endpoints: a socket address and the carrier that reaches it.

use crate::address::{parse_socket_addr, socket_addr_parsed, SocketAddress};
use crate::text::{split, split_bytes, views, SLASH};
use vstd::prelude::*;
use vstd::string::StringSliceAdditionalSpecFns;

verus! {

/// The carrier of a hop: plain datagrams, or echo messages.
#[derive(Copy, Clone, Debug, PartialEq, Eq, Structural)]
pub enum Protocol {
    Udp,
    Icmp,
}

/// Why a text is no endpoint.
#[derive(Copy, Clone, Debug, PartialEq, Eq, Structural)]
pub enum UriError {
    /// The text holds more than one slash.
    TooManyParts,
    /// What stands before the slash is no socket address.
    InvalidAddress,
    /// What stands after the slash names no carrier.
    InvalidProtocol,
}

/// An ASCII letter in lower case; any other byte unchanged.
pub open spec fn ascii_lower(byte: u8) -> u8 {
    if 0x41 <= byte <= 0x5a {
        (byte + 32) as u8
    } else {
        byte
    }
}

/// A text with its ASCII letters in lower case.
pub open spec fn lowered(text: Seq<u8>) -> Seq<u8> {
    Seq::new(text.len(), |i: int| ascii_lower(text[i]))
}

/// The bytes of `udp`.
pub open spec fn udp_name() -> Seq<u8> {
    seq![0x75u8, 0x64u8, 0x70u8]
}

/// The bytes of the name of the echo carrier.
pub open spec fn echo_name() -> Seq<u8> {
    seq![0x69u8, 0x63u8, 0x6du8, 0x70u8]
}

/// The carrier that a text names, whatever the case of its letters.
pub open spec fn protocol_named(text: Seq<u8>) -> Option<Protocol> {
    if lowered(text) == udp_name() {
        Some(Protocol::Udp)
    } else if lowered(text) == echo_name() {
        Some(Protocol::Icmp)
    } else {
        None
    }
}

/// An ASCII letter in lower case; any other byte unchanged.
fn to_ascii_lower(byte: u8) -> (lower: u8)
    ensures
        lower == ascii_lower(byte),
{
    if 0x41 <= byte && byte <= 0x5a {
        byte + 32
    } else {
        byte
    }
}

/// Whether `text` is `name` but for the case of its ASCII letters.
fn matches_lowered(text: &[u8], name: &[u8]) -> (result: bool)
    ensures
        result == (lowered(text@) == name@),
{
    if text.len() != name.len() {
        return false;
    }
    let mut index: usize = 0;
    while index < text.len()
        invariant
            index <= text@.len(),
            text@.len() == name@.len(),
            forall|i: int| 0 <= i < index ==> ascii_lower(text@[i]) == name@[i],
        decreases text@.len() - index,
    {
        if to_ascii_lower(text[index]) != name[index] {
            assert(lowered(text@)[index as int] != name@[index as int]);
            return false;
        }
        index += 1;
    }
    assert(lowered(text@) =~= name@);
    true
}

/// The carrier that the bytes of a text name, if any.
pub fn protocol_from_bytes(text: &[u8]) -> (result: Option<Protocol>)
    ensures
        result == protocol_named(text@),
{
    let udp: [u8; 3] = [0x75, 0x64, 0x70];
    let echo: [u8; 4] = [0x69, 0x63, 0x6d, 0x70];
    assert(udp@ =~= udp_name());
    assert(echo@ =~= echo_name());
    if matches_lowered(text, udp.as_slice()) {
        Some(Protocol::Udp)
    } else if matches_lowered(text, echo.as_slice()) {
        Some(Protocol::Icmp)
    } else {
        None
    }
}

impl Protocol {
    /// Reads the name of a carrier: `udp` or the name of the echo carrier, in
    /// any case.
    pub fn from_str(s: &str) -> (result: Result<Protocol, UriError>)
        ensures
            match protocol_named(s.spec_bytes()) {
                Some(protocol) => result == Ok::<Protocol, UriError>(protocol),
                None => result == Err::<Protocol, UriError>(UriError::InvalidProtocol),
            },
    {
        match protocol_from_bytes(s.as_bytes()) {
            Some(protocol) => Ok(protocol),
            None => Err(UriError::InvalidProtocol),
        }
    }

    /// The name of the carrier, in lower case.
    pub fn name(&self) -> (name: &'static str)
        ensures
            name@ == match *self {
                Protocol::Udp => "udp"@,
                Protocol::Icmp => "icmp"@,
            },
            protocol_named(name.spec_bytes()) == Some(*self),
    {
        match self {
            Protocol::Udp => {
                proof {
                    lemma_names();
                }
                "udp"
            },
            Protocol::Icmp => {
                proof {
                    lemma_names();
                }
                "icmp"
            },
        }
    }
}

/// The two names are the bytes of their literals.
proof fn lemma_names()
    ensures
        "udp".spec_bytes() == udp_name(),
        "icmp".spec_bytes() == echo_name(),
        lowered(udp_name()) == udp_name(),
        lowered(echo_name()) == echo_name(),
        udp_name() != echo_name(),
{
    reveal_strlit("udp");
    reveal_strlit("icmp");
    vstd::string::is_ascii_spec_bytes("udp");
    vstd::string::is_ascii_spec_bytes("icmp");
    assert("udp".spec_bytes() =~= udp_name());
    assert("icmp".spec_bytes() =~= echo_name());
    assert(lowered(udp_name()) =~= udp_name());
    assert(lowered(echo_name()) =~= echo_name());
    assert(udp_name().len() != echo_name().len());
}


/// Where a forwarder listens or forwards to: an address and the carrier of the hop.
#[derive(Clone, Copy, Debug, PartialEq, Eq, Structural)]
pub struct Uri {
    pub addr: SocketAddress,
    pub protocol: Protocol,
}

impl Uri {
    pub fn new(addr: SocketAddress, protocol: Protocol) -> (uri: Self)
        ensures
            uri.addr == addr,
            uri.protocol == protocol,
    {
        Uri { addr, protocol }
    }
}

/// The endpoint that a text stands for: a socket address, then if one likes a
/// slash and the name of the carrier, which is `udp` where the text does not
/// say. More than one slash is refused before anything else is looked at, a
/// bad address before a bad carrier.
pub open spec fn uri_parsed(text: Seq<u8>) -> Result<Uri, UriError> {
    let parts = split(text, SLASH);
    if parts.len() > 2 {
        Err(UriError::TooManyParts)
    } else {
        match socket_addr_parsed(parts[0]) {
            None => Err(UriError::InvalidAddress),
            Some(addr) => if parts.len() == 1 {
                Ok(Uri { addr, protocol: Protocol::Udp })
            } else {
                match protocol_named(parts[1]) {
                    Some(protocol) => Ok(Uri { addr, protocol }),
                    None => Err(UriError::InvalidProtocol),
                }
            },
        }
    }
}

impl Uri {
    /// Reads an endpoint from its bytes.
    pub fn from_bytes(text: &[u8]) -> (result: Result<Uri, UriError>)
        ensures
            result == uri_parsed(text@),
    {
        let parts = split_bytes(text, SLASH);
        if parts.len() > 2 {
            return Err(UriError::TooManyParts);
        }
        assert(views(parts@)[0] == parts@[0]@);
        let addr = match parse_socket_addr(parts[0].as_slice()) {
            Some(addr) => addr,
            None => {
                return Err(UriError::InvalidAddress);
            },
        };
        if parts.len() == 1 {
            return Ok(Uri { addr, protocol: Protocol::Udp });
        }
        assert(views(parts@)[1] == parts@[1]@);
        match protocol_from_bytes(parts[1].as_slice()) {
            Some(protocol) => Ok(Uri { addr, protocol }),
            None => Err(UriError::InvalidProtocol),
        }
    }

    /// Reads an endpoint from a text such as `127.0.0.1:8000/udp`.
    pub fn from_str(s: &str) -> (result: Result<Uri, UriError>)
        ensures
            result == uri_parsed(s.spec_bytes()),
    {
        Uri::from_bytes(s.as_bytes())
    }
}

impl UriError {
    /// What is wrong with the text, in words.
    pub fn message(&self) -> (message: &'static str)
        ensures
            message@ == match *self {
                UriError::TooManyParts => {
                    "there are more parts than two, you can only use slash once in uri"@
                },
                UriError::InvalidAddress => "invalid socket address syntax"@,
                UriError::InvalidProtocol => {
                    "invalid socket protocol name, valid socket protocols are: 'udp' and 'icmp'"@
                },
            },
    {
        match self {
            UriError::TooManyParts => {
                "there are more parts than two, you can only use slash once in uri"
            },
            UriError::InvalidAddress => "invalid socket address syntax",
            UriError::InvalidProtocol => {
                "invalid socket protocol name, valid socket protocols are: 'udp' and 'icmp'"
            },
        }
    }
}

} // verus!
