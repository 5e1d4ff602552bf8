//! The header decoder: a pure function from a raw byte buffer to either a
//! validated header record or a classified decode error.
use crate::text::{ipv4_text, ipv6_text, parse_ipv4, parse_ipv6, uuid_string, uuid_text};
use vstd::prelude::*;

verus! {

use vstd::utf8::{valid_utf8, decode_utf8};

/// Everything that can go wrong while decoding a header, one variant per
/// violated structural expectation.
#[derive(Clone, Copy, Debug, PartialEq, Eq, Structural)]
pub enum DecodeError {
    /// The buffer is shorter than the 24-byte minimum a header needs.
    BufferTooSmall,
    /// The addon-length byte is out of bounds.
    InvalidPayload,
    /// The buffer ends before the command byte that follows the addon block.
    InvalidCommandIndex,
    /// The command byte is present but is neither TCP (1) nor UDP (2).
    UnsupportedCommand,
    /// Fewer than two bytes remain where the port should be.
    MissingPort,
    /// The buffer ends before the address-type byte.
    MissingAddressType,
    /// Fewer than four bytes remain for an IPv4 address.
    Ipv4BytesMissing,
    /// The buffer ends before the domain-length byte.
    DomainLengthMissing,
    /// Fewer bytes remain than the domain length announces.
    DomainBytesMissing,
    /// The domain bytes are not valid UTF-8.
    DomainUtf8Error,
    /// Fewer than sixteen bytes remain for an IPv6 address.
    Ipv6BytesMissing,
    /// The address-type byte is none of IPv4 (1), Domain (2) or IPv6 (3).
    InvalidAddressType,
}

/// A decoded header record.
pub struct VlessHeader {
    /// The 16-byte identifier in canonical hyphenated lowercase hex form.
    pub uuid: String,
    /// The command byte: 1 for TCP, 2 for UDP.
    pub command: u8,
    /// The address-type byte: 1 for IPv4, 2 for Domain, 3 for IPv6.
    pub address_type: u8,
    /// The textual address, whose syntax the address type determines.
    pub address: String,
    /// The 16-bit port, decoded from network byte order.
    pub port: u16,
}

/// The mathematical model of a decoded header.
#[verifier::ext_equal]
pub struct HeaderModel {
    pub uuid: Seq<char>,
    pub command: u8,
    pub address_type: u8,
    pub address: Seq<char>,
    pub port: u16,
}

impl View for VlessHeader {
    type V = HeaderModel;

    open spec fn view(&self) -> HeaderModel {
        HeaderModel {
            uuid: self.uuid@,
            command: self.command,
            address_type: self.address_type,
            address: self.address@,
            port: self.port,
        }
    }
}

/// Offset of the command byte: it follows the fixed 18-byte prefix and the
/// skipped addon block whose length stands at offset 17.
pub open spec fn spec_command_index(buf: Seq<u8>) -> int
    recommends
        buf.len() > 17,
{
    18 + buf[17]
}

/// Offset of the two big-endian port bytes, just after the command byte.
pub open spec fn spec_port_index(buf: Seq<u8>) -> int
    recommends
        buf.len() > 17,
{
    spec_command_index(buf) + 1
}

/// Offset of the address-type byte, just after the port.
pub open spec fn spec_addr_type_index(buf: Seq<u8>) -> int
    recommends
        buf.len() > 17,
{
    spec_port_index(buf) + 2
}

/// The textual address that the bytes from the address-type byte onward
/// describe, or the decode error they provoke. `ati` is the offset of the
/// address-type byte.
pub open spec fn spec_parse_address(buf: Seq<u8>, ati: int) -> Result<Seq<char>, DecodeError>
    recommends
        0 <= ati < buf.len(),
{
    let at = buf[ati];
    if at == 1 {
        if buf.len() < ati + 5 {
            Err(DecodeError::Ipv4BytesMissing)
        } else {
            Ok(ipv4_text(buf.subrange(ati + 1, ati + 5)))
        }
    } else if at == 2 {
        if buf.len() < ati + 2 {
            Err(DecodeError::DomainLengthMissing)
        } else {
            let dlen = buf[ati + 1] as int;
            if buf.len() < ati + 2 + dlen {
                Err(DecodeError::DomainBytesMissing)
            } else if !valid_utf8(buf.subrange(ati + 2, ati + 2 + dlen)) {
                Err(DecodeError::DomainUtf8Error)
            } else {
                Ok(decode_utf8(buf.subrange(ati + 2, ati + 2 + dlen)))
            }
        }
    } else if at == 3 {
        if buf.len() < ati + 17 {
            Err(DecodeError::Ipv6BytesMissing)
        } else {
            Ok(ipv6_text(buf.subrange(ati + 1, ati + 17)))
        }
    } else {
        Err(DecodeError::InvalidAddressType)
    }
}

/// What decoding a raw frame yields: the header record a well-formed buffer
/// describes, or the error naming the first structural expectation the
/// buffer violates, scanning left to right.
pub open spec fn spec_parse(buf: Seq<u8>) -> Result<HeaderModel, DecodeError> {
    if buf.len() < 24 {
        Err(DecodeError::BufferTooSmall)
    } else if buf.len() <= 17 {
        Err(DecodeError::InvalidPayload)
    } else {
        let ci = spec_command_index(buf);
        if buf.len() <= ci {
            Err(DecodeError::InvalidCommandIndex)
        } else {
            let command = buf[ci];
            if command != 1 && command != 2 {
                Err(DecodeError::UnsupportedCommand)
            } else {
                let pi = spec_port_index(buf);
                if buf.len() < pi + 2 {
                    Err(DecodeError::MissingPort)
                } else {
                    let port = (buf[pi] as int * 256 + buf[pi + 1] as int) as u16;
                    let ati = spec_addr_type_index(buf);
                    if buf.len() <= ati {
                        Err(DecodeError::MissingAddressType)
                    } else {
                        match spec_parse_address(buf, ati) {
                            Ok(address) => Ok(
                                HeaderModel {
                                    uuid: uuid_text(buf.subrange(1, 17)),
                                    command,
                                    address_type: buf[ati],
                                    address,
                                    port,
                                },
                            ),
                            Err(e) => Err(e),
                        }
                    }
                }
            }
        }
    }
}

/// Relies on core::str::from_utf8: it returns `Ok` exactly when the bytes
/// are valid UTF-8, and the returned string is their decoding.
#[verifier::external_body]
fn utf8_str(bytes: &[u8]) -> (r: Option<&str>)
    ensures
        r is Some <==> valid_utf8(bytes@),
        r matches Some(s) ==> s@ == decode_utf8(bytes@),
{
    core::str::from_utf8(bytes).ok()
}

/// Decodes the header at the start of `buf` into a record, or reports which
/// structural expectation the buffer violates. Bytes after the address field
/// are left untouched for the caller.
pub fn parse_vless_header(buf: &[u8]) -> (r: Result<VlessHeader, DecodeError>)
    ensures
        r matches Ok(h) ==> spec_parse(buf@) matches Ok(m) && h@ == m,
        r matches Err(e) ==> spec_parse(buf@) == Err::<HeaderModel, DecodeError>(e),
{
    let n = buf.len();
    if n < 24 {
        return Err(DecodeError::BufferTooSmall);
    }
    if n <= 17 {
        return Err(DecodeError::InvalidPayload);
    }
    let addon_len = buf[17] as usize;
    let command_index = 18 + addon_len;
    if n <= command_index {
        return Err(DecodeError::InvalidCommandIndex);
    }
    let command = buf[command_index];
    if command != 1 && command != 2 {
        return Err(DecodeError::UnsupportedCommand);
    }
    let port_index = command_index + 1;
    if n < port_index + 2 {
        return Err(DecodeError::MissingPort);
    }
    let port: u16 = (buf[port_index] as u16) * 256 + (buf[port_index + 1] as u16);
    let address_type_index = port_index + 2;
    if n <= address_type_index {
        return Err(DecodeError::MissingAddressType);
    }
    let address_type = buf[address_type_index];
    let address: String = if address_type == 1 {
        if n < address_type_index + 5 {
            return Err(DecodeError::Ipv4BytesMissing);
        }
        parse_ipv4(vstd::slice::slice_subrange(buf, address_type_index + 1, address_type_index + 5))
    } else if address_type == 2 {
        if n < address_type_index + 2 {
            return Err(DecodeError::DomainLengthMissing);
        }
        let domain_len = buf[address_type_index + 1] as usize;
        let address_value_index = address_type_index + 2;
        if n < address_value_index + domain_len {
            return Err(DecodeError::DomainBytesMissing);
        }
        match utf8_str(
            vstd::slice::slice_subrange(
                buf,
                address_value_index,
                address_value_index + domain_len,
            ),
        ) {
            Some(s) => s.to_owned(),
            None => {
                return Err(DecodeError::DomainUtf8Error);
            },
        }
    } else if address_type == 3 {
        if n < address_type_index + 17 {
            return Err(DecodeError::Ipv6BytesMissing);
        }
        parse_ipv6(
            vstd::slice::slice_subrange(buf, address_type_index + 1, address_type_index + 17),
        )
    } else {
        return Err(DecodeError::InvalidAddressType);
    };
    let uuid = uuid_string(vstd::slice::slice_subrange(buf, 1, 17));
    let h = VlessHeader { uuid, command, address_type, address, port };
    proof {
        assert(spec_parse(buf@) matches Ok(m) && h@ =~= m);
    }
    Ok(h)
}

/// The buffer passes the minimum-size gate and reaches its command byte.
pub open spec fn reaches_command(buf: Seq<u8>) -> bool {
    buf.len() >= 24 && buf.len() > spec_command_index(buf)
}

/// The command byte names one of the two supported commands.
pub open spec fn supported_command(buf: Seq<u8>) -> bool
    recommends
        reaches_command(buf),
{
    buf[spec_command_index(buf)] == 1 || buf[spec_command_index(buf)] == 2
}

/// The buffer reaches its address-type byte with a supported command.
pub open spec fn reaches_addr_type(buf: Seq<u8>) -> bool {
    reaches_command(buf) && supported_command(buf) && buf.len() > spec_addr_type_index(buf)
}

/// The bytes of a Domain-kind address: those that the domain-length byte,
/// just after the address-type byte, counts.
pub open spec fn spec_domain_bytes(buf: Seq<u8>) -> Seq<u8>
    recommends
        buf.len() > 17,
        buf.len() >= spec_addr_type_index(buf) + 2 + buf[spec_addr_type_index(buf) + 1],
{
    buf.subrange(
        spec_addr_type_index(buf) + 2,
        spec_addr_type_index(buf) + 2 + buf[spec_addr_type_index(buf) + 1],
    )
}

/// Decoding succeeds exactly when the buffer passes the minimum-size gate,
/// reaches a supported command byte together with its port and address-type
/// bytes, and its address field parses; every other buffer yields an error.
pub proof fn lemma_success_characterized(buf: Seq<u8>)
    ensures
        spec_parse(buf) is Ok <==> (reaches_addr_type(buf) && spec_parse_address(
            buf,
            spec_addr_type_index(buf),
        ) is Ok),
{
}

/// When a Domain-kind address's bytes are all present, decoding fails with
/// the UTF-8-specific error exactly when those bytes are not valid UTF-8 —
/// never with a bounds error — and when they are valid, the decoded address
/// is their UTF-8 decoding, verbatim.
pub proof fn lemma_domain_utf8(buf: Seq<u8>)
    requires
        reaches_addr_type(buf),
        buf[spec_addr_type_index(buf)] == 2,
        buf.len() >= spec_addr_type_index(buf) + 2 + buf[spec_addr_type_index(buf) + 1],
    ensures
        spec_parse(buf) == Err::<HeaderModel, DecodeError>(DecodeError::DomainUtf8Error) <==> !valid_utf8(
            spec_domain_bytes(buf),
        ),
        valid_utf8(spec_domain_bytes(buf)) ==> (spec_parse(buf) matches Ok(m) && m.address
            == decode_utf8(spec_domain_bytes(buf))),
{
}

/// Any buffer shorter than the 24-byte minimum is rejected as too small,
/// whatever its bytes hold.
pub proof fn lemma_short_buffer_rejected(buf: Seq<u8>)
    requires
        buf.len() < 24,
    ensures
        spec_parse(buf) == Err::<HeaderModel, DecodeError>(DecodeError::BufferTooSmall),
{
}

/// A frame with an empty addon block, the TCP command, the IPv4 address
/// type and all of its field bytes present always decodes successfully, and
/// the record is fully determined by the buffer's bytes: decoding such
/// frames is total and deterministic.
pub proof fn lemma_minimal_ipv4_total(buf: Seq<u8>)
    requires
        buf.len() >= 26,
        buf[17] == 0,
        buf[18] == 1,
        buf[21] == 1,
    ensures
        spec_parse(buf) matches Ok(m) && m == (HeaderModel {
            uuid: uuid_text(buf.subrange(1, 17)),
            command: 1,
            address_type: 1,
            address: ipv4_text(buf.subrange(22, 26)),
            port: (buf[19] * 256 + buf[20]) as u16,
        }),
{
}

/// Whenever the buffer reaches its command byte and that byte is neither
/// TCP nor UDP, decoding fails with `UnsupportedCommand`, however
/// well-formed the surrounding fields are.
pub proof fn lemma_unsupported_command(buf: Seq<u8>)
    requires
        reaches_command(buf),
        !supported_command(buf),
    ensures
        spec_parse(buf) == Err::<HeaderModel, DecodeError>(DecodeError::UnsupportedCommand),
{
}

/// Whenever the buffer reaches its address-type byte and that byte is none
/// of IPv4, Domain or IPv6, decoding fails with `InvalidAddressType`.
pub proof fn lemma_invalid_address_type(buf: Seq<u8>)
    requires
        reaches_addr_type(buf),
        buf[spec_addr_type_index(buf)] != 1,
        buf[spec_addr_type_index(buf)] != 2,
        buf[spec_addr_type_index(buf)] != 3,
    ensures
        spec_parse(buf) == Err::<HeaderModel, DecodeError>(DecodeError::InvalidAddressType),
{
}

/// Exactly when each field's bytes are cut off — as by truncating a
/// well-formed buffer one byte before a field boundary — decoding fails
/// with that field's own bounds error, never another one; and the
/// addon-length error cannot arise at all, since the minimum-size gate
/// already guarantees that byte.
pub proof fn lemma_truncation_errors(buf: Seq<u8>)
    ensures
        spec_parse(buf) == Err::<HeaderModel, DecodeError>(DecodeError::BufferTooSmall) <==> buf.len() < 24,
        spec_parse(buf) != Err::<HeaderModel, DecodeError>(DecodeError::InvalidPayload),
        spec_parse(buf) == Err::<HeaderModel, DecodeError>(DecodeError::InvalidCommandIndex) <==> (
        buf.len() >= 24 && buf.len() <= spec_command_index(buf)),
        spec_parse(buf) == Err::<HeaderModel, DecodeError>(DecodeError::MissingPort) <==> (
        reaches_command(buf) && supported_command(buf) && buf.len() < spec_port_index(buf) + 2),
        spec_parse(buf) == Err::<HeaderModel, DecodeError>(DecodeError::MissingAddressType) <==> (
        reaches_command(buf) && supported_command(buf) && buf.len() == spec_addr_type_index(buf)),
        spec_parse(buf) == Err::<HeaderModel, DecodeError>(DecodeError::Ipv4BytesMissing) <==> (
        reaches_addr_type(buf) && buf[spec_addr_type_index(buf)] == 1 && buf.len()
            < spec_addr_type_index(buf) + 5),
        spec_parse(buf) == Err::<HeaderModel, DecodeError>(DecodeError::DomainLengthMissing) <==> (
        reaches_addr_type(buf) && buf[spec_addr_type_index(buf)] == 2 && buf.len()
            < spec_addr_type_index(buf) + 2),
        spec_parse(buf) == Err::<HeaderModel, DecodeError>(DecodeError::DomainBytesMissing) <==> (
        reaches_addr_type(buf) && buf[spec_addr_type_index(buf)] == 2 && buf.len()
            >= spec_addr_type_index(buf) + 2 && buf.len() < spec_addr_type_index(buf) + 2 + buf[
            spec_addr_type_index(buf) + 1]),
        spec_parse(buf) == Err::<HeaderModel, DecodeError>(DecodeError::Ipv6BytesMissing) <==> (
        reaches_addr_type(buf) && buf[spec_addr_type_index(buf)] == 3 && buf.len()
            < spec_addr_type_index(buf) + 17),
{
}

} // verus!
