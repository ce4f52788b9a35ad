//! Socket addresses as plain values.

use crate::bytes::{slice_head, slice_tail};
use crate::text::{
    decimal_parsed, group_parsed, octet_parsed, parse_decimal, parse_group, parse_octet, split,
    split_bytes, views, CLOSING_BRACKET, COLON, DOT, OPENING_BRACKET, PERCENT,
};
use vstd::prelude::*;

verus! {

/// An IP address with a port: what a datagram comes from and goes to.
///
/// The IPv4 address is its four octets as one big-endian number, the IPv6
/// address its sixteen octets likewise.
#[derive(Clone, Copy, Debug, PartialEq, Eq, Structural, Hash)]
#[allow(inconsistent_fields)]
pub enum SocketAddress {
    V4 { ip: u32, port: u16 },
    V6 { ip: u128, port: u16, flowinfo: u32, scope_id: u32 },
}

/// The number that four octets make, first octet highest.
pub open spec fn octets_value(a: u8, b: u8, c: u8, d: u8) -> int {
    ((a as int * 256 + b as int) * 256 + c as int) * 256 + d as int
}

impl SocketAddress {
    /// The port of the address.
    pub open spec fn spec_port(&self) -> u16 {
        match *self {
            SocketAddress::V4 { port, .. } => port,
            SocketAddress::V6 { port, .. } => port,
        }
    }

    /// The same address with another port.
    pub open spec fn with_port(&self, new_port: u16) -> SocketAddress {
        match *self {
            SocketAddress::V4 { ip, .. } => SocketAddress::V4 { ip, port: new_port },
            SocketAddress::V6 { ip, flowinfo, scope_id, .. } => SocketAddress::V6 {
                ip,
                port: new_port,
                flowinfo,
                scope_id,
            },
        }
    }

    /// The IPv6 address bits; zero for an IPv4 address.
    pub open spec fn spec_ipv6_bits(&self) -> u128 {
        match *self {
            SocketAddress::V4 { .. } => 0,
            SocketAddress::V6 { ip, .. } => ip,
        }
    }

    /// An IPv4 address from its four octets and a port.
    pub fn new_v4(a: u8, b: u8, c: u8, d: u8, port: u16) -> (addr: SocketAddress)
        ensures
            addr matches SocketAddress::V4 { ip, port: p } && ip == octets_value(a, b, c, d) && p
                == port,
    {
        let ip: u32 = ((a as u32 * 256 + b as u32) * 256 + c as u32) * 256 + d as u32;
        SocketAddress::V4 { ip, port }
    }

    /// An IPv6 address from its 128 bits and a port, with no flow information and no scope.
    pub fn new_v6(ip: u128, port: u16) -> (addr: SocketAddress)
        ensures
            addr == (SocketAddress::V6 { ip, port, flowinfo: 0, scope_id: 0 }),
    {
        SocketAddress::V6 { ip, port, flowinfo: 0, scope_id: 0 }
    }

    pub fn is_ipv4(&self) -> (result: bool)
        ensures
            result == (*self is V4),
    {
        match self {
            SocketAddress::V4 { .. } => true,
            SocketAddress::V6 { .. } => false,
        }
    }

    pub fn is_ipv6(&self) -> (result: bool)
        ensures
            result == (*self is V6),
    {
        match self {
            SocketAddress::V4 { .. } => false,
            SocketAddress::V6 { .. } => true,
        }
    }

    #[verifier::when_used_as_spec(spec_port)]
    pub fn port(&self) -> (result: u16)
        ensures
            result == self.spec_port(),
    {
        match self {
            SocketAddress::V4 { port, .. } => *port,
            SocketAddress::V6 { port, .. } => *port,
        }
    }

    /// Replaces the port and keeps the rest of the address.
    pub fn set_port(&mut self, new_port: u16)
        ensures
            *final(self) == old(self).with_port(new_port),
    {
        let updated = match *self {
            SocketAddress::V4 { ip, .. } => SocketAddress::V4 { ip, port: new_port },
            SocketAddress::V6 { ip, flowinfo, scope_id, .. } => SocketAddress::V6 {
                ip,
                port: new_port,
                flowinfo,
                scope_id,
            },
        };
        *self = updated;
    }

    /// The IPv6 address bits; zero for an IPv4 address.
    #[verifier::when_used_as_spec(spec_ipv6_bits)]
    pub fn ipv6_bits(&self) -> (result: u128)
        ensures
            result == self.spec_ipv6_bits(),
    {
        match self {
            SocketAddress::V4 { .. } => 0,
            SocketAddress::V6 { ip, .. } => *ip,
        }
    }
}

/// The wildcard address of a family with port 0: where a socket binds to let
/// the system pick the port.
pub fn create_any_addr(is_ipv6: bool) -> (addr: SocketAddress)
    ensures
        is_ipv6 ==> addr == (SocketAddress::V6 { ip: 0, port: 0, flowinfo: 0, scope_id: 0 }),
        !is_ipv6 ==> addr == (SocketAddress::V4 { ip: 0, port: 0 }),
{
    if is_ipv6 {
        SocketAddress::V6 { ip: 0, port: 0, flowinfo: 0, scope_id: 0 }
    } else {
        SocketAddress::V4 { ip: 0, port: 0 }
    }
}

/// The IPv4 address that a text in dotted-quad form stands for: four octets
/// with a dot between them.
pub open spec fn ipv4_parsed(text: Seq<u8>) -> Option<u32> {
    let parts = split(text, DOT);
    if parts.len() == 4 && octet_parsed(parts[0]) is Some && octet_parsed(parts[1]) is Some
        && octet_parsed(parts[2]) is Some && octet_parsed(parts[3]) is Some {
        Some(
            octets_value(
                octet_parsed(parts[0])->0,
                octet_parsed(parts[1])->0,
                octet_parsed(parts[2])->0,
                octet_parsed(parts[3])->0,
            ) as u32,
        )
    } else {
        None
    }
}

/// Reads an IPv4 address in dotted-quad form.
pub fn parse_ipv4(text: &[u8]) -> (result: Option<u32>)
    ensures
        result == ipv4_parsed(text@),
{
    let parts = split_bytes(text, DOT);
    if parts.len() != 4 {
        return None;
    }
    assert(views(parts@)[0] == parts@[0]@ && views(parts@)[1] == parts@[1]@);
    assert(views(parts@)[2] == parts@[2]@ && views(parts@)[3] == parts@[3]@);
    let a = parse_octet(parts[0].as_slice())?;
    let b = parse_octet(parts[1].as_slice())?;
    let c = parse_octet(parts[2].as_slice())?;
    let d = parse_octet(parts[3].as_slice())?;
    Some(((a as u32 * 256 + b as u32) * 256 + c as u32) * 256 + d as u32)
}

/// The groups of a part of an IPv6 address: what stands between its colons,
/// and nothing at all where the part is empty.
pub open spec fn groups_of(text: Seq<u8>) -> Seq<Seq<u8>> {
    if text.len() == 0 {
        Seq::empty()
    } else {
        split(text, COLON)
    }
}

/// The 16-bit words of a list of hexadecimal groups.
pub open spec fn hex_words(groups: Seq<Seq<u8>>) -> Option<Seq<u16>> {
    if forall|k: int| 0 <= k < groups.len() ==> (#[trigger] group_parsed(groups[k])) is Some {
        Some(Seq::new(groups.len(), |k: int| group_parsed(groups[k])->0))
    } else {
        None
    }
}

/// The 16-bit words of a part of an IPv6 address: hexadecimal groups, of
/// which the last may be an IPv4 address in dotted-quad form where
/// `allow_v4` says so, and then stands for two words.
pub open spec fn words_parsed(text: Seq<u8>, allow_v4: bool) -> Option<Seq<u16>> {
    let groups = groups_of(text);
    if groups.len() == 0 {
        Some(Seq::empty())
    } else if hex_words(groups) is Some {
        hex_words(groups)
    } else if allow_v4 && hex_words(groups.drop_last()) is Some && ipv4_parsed(groups.last())
        is Some {
        let ip = ipv4_parsed(groups.last())->0;
        let words = hex_words(groups.drop_last())->0;
        Some(words.push((ip / 0x10000) as u16).push((ip % 0x10000) as u16))
    } else {
        None
    }
}

/// Reads the 16-bit words of a part of an IPv6 address.
pub fn parse_words(text: &[u8], allow_v4: bool) -> (result: Option<Vec<u16>>)
    ensures
        match words_parsed(text@, allow_v4) {
            Some(words) => result matches Some(read) && read@ == words,
            None => result is None,
        },
{
    let mut words: Vec<u16> = Vec::new();
    if text.len() == 0 {
        return Some(words);
    }
    let parts = split_bytes(text, COLON);
    let ghost groups = groups_of(text@);
    let last = parts.len() - 1;
    let mut index: usize = 0;
    while index < last
        invariant
            index <= last,
            last == parts@.len() - 1,
            text@.len() > 0,
            groups == groups_of(text@),
            views(parts@) == groups,
            words@.len() == index,
            forall|k: int|
                0 <= k < index ==> (#[trigger] group_parsed(groups[k])) == Some(words@[k]),
        decreases last - index,
    {
        assert(groups[index as int] == parts@[index as int]@);
        match parse_group(parts[index].as_slice()) {
            Some(word) => {
                words.push(word);
            },
            None => {
                assert(group_parsed(groups[index as int]) is None);
                assert(group_parsed(groups.drop_last()[index as int]) is None);
                assert(hex_words(groups) is None);
                assert(hex_words(groups.drop_last()) is None);
                return None;
            },
        }
        index += 1;
    }
    assert(groups[last as int] == parts@[last as int]@);
    assert(groups.last() == groups[last as int]);
    assert forall|k: int| 0 <= k < last implies (#[trigger] group_parsed(groups.drop_last()[k]))
        == Some(words@[k]) by {
        assert(group_parsed(groups[k]) == Some(words@[k]));
    }
    assert(hex_words(groups.drop_last()) is Some);
    assert(hex_words(groups.drop_last())->0 =~= words@);
    match parse_group(parts[last].as_slice()) {
        Some(word) => {
            words.push(word);
            assert forall|k: int| 0 <= k < groups.len() implies (#[trigger] group_parsed(
                groups[k],
            )) == Some(words@[k]) by {
                if k < last {
                    assert(group_parsed(groups.drop_last()[k]) == Some(words@[k]));
                }
            }
            assert(hex_words(groups)->0 =~= words@);
            Some(words)
        },
        None => {
            assert(group_parsed(groups[last as int]) is None);
            if !allow_v4 {
                return None;
            }
            match parse_ipv4(parts[last].as_slice()) {
                Some(ip) => {
                    words.push((ip / 0x10000) as u16);
                    words.push((ip % 0x10000) as u16);
                    Some(words)
                },
                None => None,
            }
        },
    }
}

/// Whether two colons stand at `index` and after it.
pub open spec fn is_double_colon(text: Seq<u8>, index: int) -> bool {
    0 <= index && index + 1 < text.len() && text[index] == COLON && text[index + 1] == COLON
}

/// Whether the first pair of colons of a text stands at `index`.
pub open spec fn is_first_double_colon(text: Seq<u8>, index: int) -> bool {
    is_double_colon(text, index) && forall|j: int| 0 <= j < index ==> !is_double_colon(text, j)
}

/// Where the first pair of colons of a text stands, if it has one.
pub open spec fn first_double_colon(text: Seq<u8>) -> Option<int> {
    if exists|index: int| is_first_double_colon(text, index) {
        Some(choose|index: int| is_first_double_colon(text, index))
    } else {
        None
    }
}

/// Finds the first pair of colons of a text.
pub fn find_double_colon(text: &[u8]) -> (result: Option<usize>)
    ensures
        match result {
            Some(index) => first_double_colon(text@) == Some(index as int) && index + 2
                <= text@.len(),
            None => first_double_colon(text@) is None,
        },
{
    if text.len() < 2 {
        assert forall|i: int| !is_first_double_colon(text@, i) by {}
        return None;
    }
    let mut index: usize = 0;
    while index < text.len() - 1
        invariant
            text@.len() >= 2,
            index <= text@.len() - 1,
            forall|j: int| 0 <= j < index ==> !is_double_colon(text@, j),
        decreases text@.len() - index,
    {
        if text[index] == COLON && text[index + 1] == COLON {
            assert(is_first_double_colon(text@, index as int));
            let ghost chosen = choose|i: int| is_first_double_colon(text@, i);
            assert(chosen == index) by {
                if chosen < index {
                    assert(!is_double_colon(text@, chosen));
                } else if index < chosen {
                    assert(!is_double_colon(text@, index as int));
                }
            }
            return Some(index);
        }
        index += 1;
    }
    assert forall|i: int| !is_first_double_colon(text@, i) by {
        if is_double_colon(text@, i) {
            assert(i < index);
        }
    }
    None
}

/// The eight 16-bit words of an IPv6 address in text form: eight groups, or
/// fewer with one pair of colons standing for the words that are zero. An IPv4
/// address may stand for the last two words, but not before the pair of colons.
pub open spec fn ipv6_words(text: Seq<u8>) -> Option<Seq<u16>> {
    match first_double_colon(text) {
        None => match words_parsed(text, true) {
            Some(words) if words.len() == 8 => Some(words),
            _ => None,
        },
        Some(index) => match (
            words_parsed(text.take(index), false),
            words_parsed(text.skip(index + 2), true),
        ) {
            (Some(head), Some(tail)) if head.len() + tail.len() <= 7 => Some(
                head + Seq::new((8 - head.len() - tail.len()) as nat, |k: int| 0u16) + tail,
            ),
            _ => None,
        },
    }
}

/// The number that eight 16-bit words make, first word highest.
pub open spec fn words_value(words: Seq<u16>) -> int {
    ((((((words[0] as int * 0x10000 + words[1] as int) * 0x10000 + words[2] as int) * 0x10000
        + words[3] as int) * 0x10000 + words[4] as int) * 0x10000 + words[5] as int) * 0x10000
        + words[6] as int) * 0x10000 + words[7] as int
}

/// The IPv6 address that a text stands for.
pub open spec fn ipv6_parsed(text: Seq<u8>) -> Option<u128> {
    match ipv6_words(text) {
        Some(words) => Some(words_value(words) as u128),
        None => None,
    }
}

/// The 128 bits that eight 16-bit words make.
fn join_words(words: &Vec<u16>) -> (value: u128)
    requires
        words@.len() == 8,
    ensures
        value == words_value(words@),
{
    let high: u64 = ((words[0] as u64 * 0x10000 + words[1] as u64) * 0x10000 + words[2] as u64)
        * 0x10000 + words[3] as u64;
    let low: u64 = ((words[4] as u64 * 0x10000 + words[5] as u64) * 0x10000 + words[6] as u64)
        * 0x10000 + words[7] as u64;
    high as u128 * 0x1_0000_0000_0000_0000 + low as u128
}

/// Reads an IPv6 address.
pub fn parse_ipv6(text: &[u8]) -> (result: Option<u128>)
    ensures
        result == ipv6_parsed(text@),
{
    match find_double_colon(text) {
        None => {
            let words = parse_words(text, true)?;
            if words.len() != 8 {
                return None;
            }
            Some(join_words(&words))
        },
        Some(index) => {
            let len = text.len();
            assert(index + 2 <= len);
            let head = parse_words(slice_head(text, index), false)?;
            let tail = parse_words(slice_tail(text, index + 2), true)?;
            if head.len() > 7 || tail.len() > 7 - head.len() {
                return None;
            }
            let mut words: Vec<u16> = Vec::new();
            let mut k: usize = 0;
            while k < head.len()
                invariant
                    k <= head@.len(),
                    words@ == head@.take(k as int),
                decreases head@.len() - k,
            {
                words.push(head[k]);
                assert(words@ =~= head@.take(k + 1));
                k += 1;
            }
            assert(words@ =~= head@);
            let zeros = 8 - head.len() - tail.len();
            let mut k: usize = 0;
            while k < zeros
                invariant
                    k <= zeros,
                    words@ == head@ + Seq::new(k as nat, |i: int| 0u16),
                decreases zeros - k,
            {
                words.push(0);
                assert(words@ =~= head@ + Seq::new((k + 1) as nat, |i: int| 0u16));
                k += 1;
            }
            let ghost padded = words@;
            let mut k: usize = 0;
            while k < tail.len()
                invariant
                    k <= tail@.len(),
                    words@ == padded + tail@.take(k as int),
                decreases tail@.len() - k,
            {
                words.push(tail[k]);
                assert(words@ =~= padded + tail@.take(k + 1));
                k += 1;
            }
            assert(words@ =~= padded + tail@);
            Some(join_words(&words))
        },
    }
}

/// The socket address that a text stands for: an IPv4 address, a colon and
/// a port; or an IPv6 address in square brackets, with a percent sign and a
/// scope number before the closing bracket if one likes, then a colon and a
/// port. Port and scope are decimal numerals.
pub open spec fn socket_addr_parsed(text: Seq<u8>) -> Option<SocketAddress> {
    if socket_addr_v4_parsed(text) is Some {
        socket_addr_v4_parsed(text)
    } else {
        socket_addr_v6_parsed(text)
    }
}

/// The IPv4 form of a socket address.
pub open spec fn socket_addr_v4_parsed(text: Seq<u8>) -> Option<SocketAddress> {
    let parts = split(text, COLON);
    if parts.len() == 2 && ipv4_parsed(parts[0]) is Some && decimal_parsed(parts[1], 0xffff)
        is Some {
        Some(
            SocketAddress::V4 {
                ip: ipv4_parsed(parts[0])->0,
                port: decimal_parsed(parts[1], 0xffff)->0 as u16,
            },
        )
    } else {
        None
    }
}

/// The address and the scope number inside the square brackets of the IPv6
/// form of a socket address.
pub open spec fn scoped_ipv6_parsed(text: Seq<u8>) -> Option<(u128, u32)> {
    let parts = split(text, PERCENT);
    if parts.len() == 1 && ipv6_parsed(parts[0]) is Some {
        Some((ipv6_parsed(parts[0])->0, 0u32))
    } else if parts.len() == 2 && ipv6_parsed(parts[0]) is Some && decimal_parsed(
        parts[1],
        0xffff_ffff,
    ) is Some {
        Some((ipv6_parsed(parts[0])->0, decimal_parsed(parts[1], 0xffff_ffff)->0 as u32))
    } else {
        None
    }
}

/// The IPv6 form of a socket address.
pub open spec fn socket_addr_v6_parsed(text: Seq<u8>) -> Option<SocketAddress> {
    let parts = split(text, CLOSING_BRACKET);
    if parts.len() == 2 && parts[0].len() >= 1 && parts[0][0] == OPENING_BRACKET
        && parts[1].len() >= 1 && parts[1][0] == COLON {
        match (scoped_ipv6_parsed(parts[0].skip(1)), decimal_parsed(parts[1].skip(1), 0xffff)) {
            (Some((ip, scope_id)), Some(port)) => Some(
                SocketAddress::V6 { ip, port: port as u16, flowinfo: 0, scope_id },
            ),
            _ => None,
        }
    } else {
        None
    }
}

fn parse_socket_addr_v4(text: &[u8]) -> (result: Option<SocketAddress>)
    ensures
        result == socket_addr_v4_parsed(text@),
{
    let parts = split_bytes(text, COLON);
    if parts.len() != 2 {
        return None;
    }
    assert(views(parts@)[0] == parts@[0]@ && views(parts@)[1] == parts@[1]@);
    let ip = parse_ipv4(parts[0].as_slice())?;
    let port = parse_decimal(parts[1].as_slice(), 0xffff)?;
    Some(SocketAddress::V4 { ip, port: port as u16 })
}

fn parse_scoped_ipv6(text: &[u8]) -> (result: Option<(u128, u32)>)
    ensures
        result == scoped_ipv6_parsed(text@),
{
    let parts = split_bytes(text, PERCENT);
    if parts.len() > 2 {
        return None;
    }
    assert(views(parts@)[0] == parts@[0]@);
    let ip = parse_ipv6(parts[0].as_slice())?;
    if parts.len() == 1 {
        return Some((ip, 0));
    }
    assert(views(parts@)[1] == parts@[1]@);
    let scope_id = parse_decimal(parts[1].as_slice(), 0xffff_ffff)?;
    Some((ip, scope_id))
}

fn parse_socket_addr_v6(text: &[u8]) -> (result: Option<SocketAddress>)
    ensures
        result == socket_addr_v6_parsed(text@),
{
    let parts = split_bytes(text, CLOSING_BRACKET);
    if parts.len() != 2 {
        return None;
    }
    assert(views(parts@)[0] == parts@[0]@ && views(parts@)[1] == parts@[1]@);
    let inside = parts[0].as_slice();
    let after = parts[1].as_slice();
    if inside.len() < 1 || inside[0] != OPENING_BRACKET || after.len() < 1 || after[0] != COLON {
        return None;
    }
    assert(crate::bytes::tail(inside@, 1) =~= inside@.skip(1));
    assert(crate::bytes::tail(after@, 1) =~= after@.skip(1));
    let (ip, scope_id) = parse_scoped_ipv6(slice_tail(inside, 1))?;
    let port = parse_decimal(slice_tail(after, 1), 0xffff)?;
    Some(SocketAddress::V6 { ip, port: port as u16, flowinfo: 0, scope_id })
}

/// Reads a socket address.
pub fn parse_socket_addr(text: &[u8]) -> (result: Option<SocketAddress>)
    ensures
        result == socket_addr_parsed(text@),
{
    match parse_socket_addr_v4(text) {
        Some(addr) => Some(addr),
        None => parse_socket_addr_v6(text),
    }
}

} // verus!
