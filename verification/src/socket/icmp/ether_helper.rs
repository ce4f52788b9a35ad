//! What the ICMP carrier takes from `etherparse`: header validation, the
//! fields of an ICMP message, and the two checksums.
//!
//! Every function here that calls `etherparse` is believed, not proved: its
//! contract restates what the crate's source shows.

use etherparse::{
    Icmpv4Slice, Icmpv4Type, Icmpv6Slice, Icmpv6Type, Ipv4HeaderSlice, ReadError, ValueError,
};
use vstd::prelude::*;

verus! {

/// `etherparse::ReadError`: why a slice could not be read. Nothing is known of
/// a value of it.
#[verifier::external_type_specification]
#[verifier::external_body]
pub struct ExReadError(ReadError);

/// `etherparse::ValueError`: why a value could not be written. Nothing is
/// known of a value of it.
#[verifier::external_type_specification]
#[verifier::external_body]
pub struct ExValueError(ValueError);

/// Largest ICMPv6 message, header included, that `etherparse` reads or sums.
pub const MAX_V6_MESSAGE_LEN: usize = 0xffff_ffff;

/// The version nibble of an IPv4 header.
pub open spec fn ipv4_version(packet: Seq<u8>) -> int {
    packet[0] as int / 16
}

/// The length of an IPv4 header in bytes, options included, as its first byte gives it.
pub open spec fn ipv4_header_len(packet: Seq<u8>) -> int {
    (packet[0] as int % 16) * 4
}

/// The total-length field of an IPv4 header: header and payload together.
pub open spec fn ipv4_total_len(packet: Seq<u8>) -> int {
    packet[2] as int * 256 + packet[3] as int
}

/// Whether `packet` starts with an IPv4 header that can be read: twenty bytes
/// at least, version 4, a header length of five words or more that fits in
/// the packet and is not above the total length.
pub open spec fn ipv4_header_accepted(packet: Seq<u8>) -> bool {
    &&& packet.len() >= 20
    &&& ipv4_version(packet) == 4
    &&& ipv4_header_len(packet) >= 20
    &&& packet.len() >= ipv4_header_len(packet)
    &&& ipv4_total_len(packet) >= ipv4_header_len(packet)
}

/// Whether an ICMPv4 message is a timestamp request or reply.
pub open spec fn v4_is_timestamp(message: Seq<u8>) -> bool {
    (message[0] == 13 || message[0] == 14) && message[1] == 0
}

/// Whether `message` can be read as an ICMPv4 message: eight bytes at least,
/// and exactly twenty for a timestamp message.
pub open spec fn v4_message_accepted(message: Seq<u8>) -> bool {
    message.len() >= 8 && (v4_is_timestamp(message) ==> message.len() == 20)
}

/// The length of the header of an ICMPv4 message.
pub open spec fn v4_header_len(message: Seq<u8>) -> int {
    if v4_is_timestamp(message) {
        20
    } else {
        8
    }
}

/// Whether `message` can be read as an ICMPv6 message.
pub open spec fn v6_message_accepted(message: Seq<u8>) -> bool {
    8 <= message.len() <= MAX_V6_MESSAGE_LEN
}

/// The fields of an ICMP message of either family.
#[derive(Debug)]
pub struct IcmpSlice<'a> {
    pub slice: &'a [u8],
    pub type_u8: u8,
    pub code_u8: u8,
    pub bytes5to8: [u8; 4],
    pub payload_len: usize,
}

/// The checksum that `etherparse` computes for an ICMPv4 message with this
/// type, code, bytes five to eight and payload.
pub uninterp spec fn icmpv4_checksum(
    type_u8: u8,
    code_u8: u8,
    bytes5to8: Seq<u8>,
    payload: Seq<u8>,
) -> u16;

/// The checksum that `etherparse` computes for an ICMPv6 message with this
/// type, code, bytes five to eight and payload, sent between these two
/// addresses.
pub uninterp spec fn icmpv6_checksum(
    type_u8: u8,
    code_u8: u8,
    bytes5to8: Seq<u8>,
    source_ip: u128,
    destination_ip: u128,
    payload: Seq<u8>,
) -> u16;

impl<'a> IcmpSlice<'a> {
    /// Whether the fields are those of `message`, whose header has `header_len` bytes.
    pub open spec fn reads(&self, message: Seq<u8>, header_len: int) -> bool {
        &&& self.slice@ == message
        &&& self.type_u8 == message[0]
        &&& self.code_u8 == message[1]
        &&& self.bytes5to8@ == message.subrange(4, 8)
        &&& self.payload_len == message.len() - header_len
    }

    /// Whether the payload lies inside the message.
    pub open spec fn wf(&self) -> bool {
        self.payload_len <= self.slice@.len()
    }

    /// Reads `slice` as an ICMP message of the given family.
    pub fn from_slice(is_icmp_v6: bool, slice: &'a [u8]) -> (result: Option<IcmpSlice<'a>>)
        ensures
            result is Some <==> if is_icmp_v6 {
                v6_message_accepted(slice@)
            } else {
                v4_message_accepted(slice@)
            },
            result matches Some(icmp) ==> icmp.wf() && icmp.reads(
                slice@,
                if is_icmp_v6 {
                    8
                } else {
                    v4_header_len(slice@)
                },
            ),
    {
        let read = if is_icmp_v6 {
            icmpv6_slice(slice)
        } else {
            icmpv4_slice(slice)
        };
        match read {
            Ok(icmp) => Some(icmp),
            Err(_) => None,
        }
    }

    pub fn bytes5to8(&self) -> (bytes: [u8; 4])
        ensures
            bytes == self.bytes5to8,
    {
        self.bytes5to8
    }

    pub fn code_u8(&self) -> (code: u8)
        ensures
            code == self.code_u8,
    {
        self.code_u8
    }

    pub fn type_u8(&self) -> (message_type: u8)
        ensures
            message_type == self.type_u8,
    {
        self.type_u8
    }

    /// The bytes of the message that follow its header.
    pub fn payload(&self) -> (payload: &'a [u8])
        requires
            self.wf(),
        ensures
            payload@ == crate::bytes::tail(self.slice@, self.slice@.len() - self.payload_len),
    {
        crate::bytes::slice_tail(self.slice, self.slice.len() - self.payload_len)
    }
}

/// `etherparse::Ipv4HeaderSlice::from_slice`, then `payload_len` of the header
/// it found. The contract restates the five checks that `from_slice` makes and
/// the subtraction that `payload_len` is.
#[verifier::external_body]
pub(crate) fn ipv4_payload_len(packet: &[u8]) -> (result: Result<u16, ReadError>)
    ensures
        result is Ok <==> ipv4_header_accepted(packet@),
        result matches Ok(len) ==> len == ipv4_total_len(packet@) - ipv4_header_len(packet@),
{
    match Ipv4HeaderSlice::from_slice(packet) {
        Ok(header) => Ok(header.payload_len()),
        Err(error) => Err(error),
    }
}

/// `etherparse::Icmpv4Slice::from_slice`, with the type, code, bytes five to
/// eight and payload length that the slice reports. The contract restates the
/// length checks of `from_slice` and the offsets that the getters read.
#[verifier::external_body]
pub(crate) fn icmpv4_slice<'a>(message: &'a [u8]) -> (result: Result<IcmpSlice<'a>, ReadError>)
    ensures
        result is Ok <==> v4_message_accepted(message@),
        result matches Ok(icmp) ==> icmp.reads(message@, v4_header_len(message@)),
{
    match Icmpv4Slice::from_slice(message) {
        Ok(icmp) => Ok(
            IcmpSlice {
                slice: message,
                type_u8: icmp.type_u8(),
                code_u8: icmp.code_u8(),
                bytes5to8: icmp.bytes5to8(),
                payload_len: icmp.payload().len(),
            },
        ),
        Err(error) => Err(error),
    }
}

/// `etherparse::Icmpv6Slice::from_slice`, with the type, code, bytes five to
/// eight and payload length that the slice reports. The contract restates the
/// two length checks of `from_slice` and the offsets that the getters read.
#[verifier::external_body]
pub(crate) fn icmpv6_slice<'a>(message: &'a [u8]) -> (result: Result<IcmpSlice<'a>, ReadError>)
    ensures
        result is Ok <==> v6_message_accepted(message@),
        result matches Ok(icmp) ==> icmp.reads(message@, 8),
{
    match Icmpv6Slice::from_slice(message) {
        Ok(icmp) => Ok(
            IcmpSlice {
                slice: message,
                type_u8: icmp.type_u8(),
                code_u8: icmp.code_u8(),
                bytes5to8: icmp.bytes5to8(),
                payload_len: icmp.payload().len(),
            },
        ),
        Err(error) => Err(error),
    }
}

/// `etherparse::Icmpv4Type::calc_checksum` on a message given by its type,
/// code and bytes five to eight. The contract only names the value.
#[verifier::external_body]
pub(crate) fn calc_icmpv4_checksum(
    type_u8: u8,
    code_u8: u8,
    bytes5to8: [u8; 4],
    payload: &[u8],
) -> (checksum: u16)
    ensures
        checksum == icmpv4_checksum(type_u8, code_u8, bytes5to8@, payload@),
{
    Icmpv4Type::Unknown { type_u8, code_u8, bytes5to8 }.calc_checksum(payload)
}

/// `etherparse::Icmpv6Type::calc_checksum` on a message given by its type,
/// code and bytes five to eight, with the two addresses of the pseudo-header.
/// It fails exactly when header and payload together pass the largest ICMPv6
/// message; otherwise the contract only names the value.
#[verifier::external_body]
pub(crate) fn calc_icmpv6_checksum(
    type_u8: u8,
    code_u8: u8,
    bytes5to8: [u8; 4],
    source_ip: u128,
    destination_ip: u128,
    payload: &[u8],
) -> (result: Result<u16, ValueError>)
    ensures
        result is Ok <==> payload@.len() + 8 <= MAX_V6_MESSAGE_LEN,
        result matches Ok(checksum) ==> checksum == icmpv6_checksum(
            type_u8,
            code_u8,
            bytes5to8@,
            source_ip,
            destination_ip,
            payload@,
        ),
{
    Icmpv6Type::Unknown { type_u8, code_u8, bytes5to8 }.calc_checksum(
        source_ip.to_be_bytes(),
        destination_ip.to_be_bytes(),
        payload,
    )
}

} // verus!
