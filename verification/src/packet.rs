//! Link-layer and network-layer decoding of a record's payload: Ethernet
//! frames, and IPv4 datagrams with Internet-checksum validation.
//!
//! Both decoders are pure and stateless: each takes a borrowed byte slice
//! and returns an owned structure (its payload is a copy, not a view), so a
//! decoded frame or datagram outlives the record it came from.  What each
//! returns is a function of the input bytes alone — `spec_decode_ethernet`
//! and `spec_decode_ipv4` state that function, and the decoders are proved
//! to compute it.

use vstd::prelude::*;

use crate::wire::{spec_u16_be, u16_from_pair};

verus! {

/// A decoder rejected its input.  Failures at this level concern one record
/// only and are recoverable: a caller scanning a capture may skip the record
/// and go on.
#[derive(Debug, Clone, Copy, PartialEq, Eq, Structural)]
pub enum DecodeError {
    /// The input is shorter than the 14-byte Ethernet header.
    FrameTooShort,
    /// The input is shorter than the 20-byte fixed IPv4 header.
    DatagramTooShort,
    /// The version nibble of an IPv4 datagram is not 4.
    ProtocolMismatch,
    /// A declared length (the total length, or the header length in words)
    /// exceeds the bytes actually available.
    LengthMismatch,
}

// ---------------------------------------------------------------------------
// MacAddress
// ---------------------------------------------------------------------------

/// A hardware address: six raw bytes, with no identity beyond them.
/// Displayable as colon-separated upper-case hex pairs.
#[derive(Debug, Clone, Copy)]
pub struct MacAddress(pub [u8; 6]);

impl PartialEq for MacAddress {
    fn eq(&self, other: &MacAddress) -> (r: bool) {
        let r = self.0[0] == other.0[0] && self.0[1] == other.0[1] && self.0[2] == other.0[2]
            && self.0[3] == other.0[3] && self.0[4] == other.0[4] && self.0[5] == other.0[5];
        proof {
            if r {
                assert(self.0@ =~= other.0@);
            }
        }
        r
    }
}

impl Eq for MacAddress {

}

impl vstd::std_specs::cmp::PartialEqSpecImpl for MacAddress {
    open spec fn obeys_eq_spec() -> bool {
        true
    }

    open spec fn eq_spec(&self, other: &MacAddress) -> bool {
        self.0@ == other.0@
    }
}

impl From<[u8; 6]> for MacAddress {
    fn from(bytes: [u8; 6]) -> (r: MacAddress) {
        MacAddress(bytes)
    }
}

impl vstd::std_specs::convert::FromSpecImpl<[u8; 6]> for MacAddress {
    open spec fn obeys_from_spec() -> bool {
        true
    }

    open spec fn from_spec(bytes: [u8; 6]) -> MacAddress {
        MacAddress(bytes)
    }
}

/// The upper-case hex character of the nibble `n`.
pub open spec fn spec_hex_digit(n: u8) -> char {
    if n == 0 {
        '0'
    } else if n == 1 {
        '1'
    } else if n == 2 {
        '2'
    } else if n == 3 {
        '3'
    } else if n == 4 {
        '4'
    } else if n == 5 {
        '5'
    } else if n == 6 {
        '6'
    } else if n == 7 {
        '7'
    } else if n == 8 {
        '8'
    } else if n == 9 {
        '9'
    } else if n == 10 {
        'A'
    } else if n == 11 {
        'B'
    } else if n == 12 {
        'C'
    } else if n == 13 {
        'D'
    } else if n == 14 {
        'E'
    } else {
        'F'
    }
}

/// The two upper-case hex characters of the byte `b`.
pub open spec fn spec_byte_hex(b: u8) -> Seq<char> {
    seq![spec_hex_digit(b >> 4), spec_hex_digit(b & 0x0f)]
}

/// The textual form of a hardware address: six upper-case hex pairs
/// separated by colons.
pub open spec fn spec_mac_chars(m: MacAddress) -> Seq<char> {
    spec_byte_hex(m.0[0]) + seq![':'] + spec_byte_hex(m.0[1]) + seq![':'] + spec_byte_hex(m.0[2])
        + seq![':'] + spec_byte_hex(m.0[3]) + seq![':'] + spec_byte_hex(m.0[4]) + seq![':']
        + spec_byte_hex(m.0[5])
}

fn hex_digit_str(n: u8) -> (r: &'static str)
    requires
        n < 16,
    ensures
        r@ == seq![spec_hex_digit(n)],
{
    let s: &'static str = if n == 0 {
        "0"
    } else if n == 1 {
        "1"
    } else if n == 2 {
        "2"
    } else if n == 3 {
        "3"
    } else if n == 4 {
        "4"
    } else if n == 5 {
        "5"
    } else if n == 6 {
        "6"
    } else if n == 7 {
        "7"
    } else if n == 8 {
        "8"
    } else if n == 9 {
        "9"
    } else if n == 10 {
        "A"
    } else if n == 11 {
        "B"
    } else if n == 12 {
        "C"
    } else if n == 13 {
        "D"
    } else if n == 14 {
        "E"
    } else {
        "F"
    };
    proof {
        reveal_strlit("0");
        reveal_strlit("1");
        reveal_strlit("2");
        reveal_strlit("3");
        reveal_strlit("4");
        reveal_strlit("5");
        reveal_strlit("6");
        reveal_strlit("7");
        reveal_strlit("8");
        reveal_strlit("9");
        reveal_strlit("A");
        reveal_strlit("B");
        reveal_strlit("C");
        reveal_strlit("D");
        reveal_strlit("E");
        reveal_strlit("F");
        assert(s@ =~= seq![spec_hex_digit(n)]);
    }
    s
}

/// Appends the two hex characters of `b` to `out`.
fn append_byte_hex(out: &mut String, b: u8)
    ensures
        final(out)@ == old(out)@ + spec_byte_hex(b),
{
    let hi = b >> 4;
    let lo = b & 0x0f;
    proof {
        assert(b >> 4 < 16 && b & 0x0f < 16) by (bit_vector);
    }
    out.append(hex_digit_str(hi));
    out.append(hex_digit_str(lo));
    proof {
        assert(out@ =~= old(out)@ + spec_byte_hex(b));
    }
}

impl MacAddress {
    /// The address as text: six upper-case hex pairs separated by colons.
    pub fn to_hex_string(&self) -> (r: String)
        ensures
            r@ == spec_mac_chars(*self),
    {
        let mut out = String::new();
        proof {
            reveal_strlit(":");
        }
        append_byte_hex(&mut out, self.0[0]);
        out.append(":");
        append_byte_hex(&mut out, self.0[1]);
        out.append(":");
        append_byte_hex(&mut out, self.0[2]);
        out.append(":");
        append_byte_hex(&mut out, self.0[3]);
        out.append(":");
        append_byte_hex(&mut out, self.0[4]);
        out.append(":");
        append_byte_hex(&mut out, self.0[5]);
        proof {
            assert(out@ =~= spec_mac_chars(*self));
        }
        out
    }

    /// The six raw bytes of the address.
    pub fn octets(&self) -> (r: [u8; 6])
        ensures
            r == self.0,
    {
        self.0
    }
}

// ---------------------------------------------------------------------------
// EtherType
// ---------------------------------------------------------------------------

/// The 16-bit protocol tag of an Ethernet frame: a closed set of known
/// protocols, plus an open variant carrying the raw value of any other tag.
#[derive(Debug, Clone, Copy, PartialEq, Eq, Hash, Structural)]
pub enum EtherType {
    IPv4,
    ARP,
    IPv6,
    Unknown(u16),
}

/// The tag a 16-bit wire value decodes to.
pub open spec fn spec_ether_type_of(v: u16) -> EtherType {
    if v == 0x0800 {
        EtherType::IPv4
    } else if v == 0x0806 {
        EtherType::ARP
    } else if v == 0x86dd {
        EtherType::IPv6
    } else {
        EtherType::Unknown(v)
    }
}

/// The 16-bit wire value of a tag.
pub open spec fn spec_ether_type_code(t: EtherType) -> u16 {
    match t {
        EtherType::IPv4 => 0x0800,
        EtherType::ARP => 0x0806,
        EtherType::IPv6 => 0x86dd,
        EtherType::Unknown(v) => v,
    }
}

/// A tag the decoder can produce: the open variant never carries the value
/// of a known protocol, since decoding such a value yields the closed
/// variant instead.
pub open spec fn spec_ether_type_wf(t: EtherType) -> bool {
    t matches EtherType::Unknown(v) ==> v != 0x0800 && v != 0x0806 && v != 0x86dd
}

impl From<u16> for EtherType {
    fn from(v: u16) -> (r: EtherType) {
        if v == 0x0800 {
            EtherType::IPv4
        } else if v == 0x0806 {
            EtherType::ARP
        } else if v == 0x86dd {
            EtherType::IPv6
        } else {
            EtherType::Unknown(v)
        }
    }
}

impl vstd::std_specs::convert::FromSpecImpl<u16> for EtherType {
    open spec fn obeys_from_spec() -> bool {
        true
    }

    open spec fn from_spec(v: u16) -> EtherType {
        spec_ether_type_of(v)
    }
}

impl EtherType {
    /// The tag's 16-bit wire encoding.
    pub fn as_u16(self) -> (r: u16)
        ensures
            r == spec_ether_type_code(self),
    {
        match self {
            EtherType::IPv4 => 0x0800,
            EtherType::ARP => 0x0806,
            EtherType::IPv6 => 0x86dd,
            EtherType::Unknown(v) => v,
        }
    }
}

/// The law of the tag mapping, one direction: every 16-bit value, decoded
/// to a tag and encoded again, yields the value — the mapping is lossless,
/// for the open variant too.
pub proof fn lemma_ether_type_code_roundtrip(v: u16)
    ensures
        spec_ether_type_code(spec_ether_type_of(v)) == v,
{
}

/// The law of the tag mapping, the other direction: every tag the decoder
/// can produce, encoded and decoded again, yields the tag.  The one shape
/// this cannot hold of is an `Unknown` built by hand around the value of a
/// known protocol — its encoding decodes to the closed variant — so such
/// tags are excluded.
pub proof fn lemma_ether_type_roundtrip(t: EtherType)
    requires
        spec_ether_type_wf(t),
    ensures
        spec_ether_type_of(spec_ether_type_code(t)) == t,
{
}

// ---------------------------------------------------------------------------
// Ethernet frames
// ---------------------------------------------------------------------------

/// The fixed 14-byte Ethernet header: both hardware addresses and the
/// protocol tag.
#[derive(Debug, Clone, Copy)]
pub struct EthernetHeader {
    pub dest_mac: MacAddress,
    pub src_mac: MacAddress,
    pub ether_type: EtherType,
}

/// A decoded Ethernet frame: its header, and an owned copy of every byte
/// after the 14-byte header.
#[derive(Debug)]
pub struct EthernetPacket {
    pub header: EthernetHeader,
    pub data: Vec<u8>,
}

/// The mathematical model of a decoded frame.
#[verifier::ext_equal]
pub struct SpecFrame {
    pub dest: Seq<u8>,
    pub src: Seq<u8>,
    pub ether_type: EtherType,
    pub data: Seq<u8>,
}

impl View for EthernetPacket {
    type V = SpecFrame;

    open spec fn view(&self) -> SpecFrame {
        SpecFrame {
            dest: self.header.dest_mac.0@,
            src: self.header.src_mac.0@,
            ether_type: self.header.ether_type,
            data: self.data@,
        }
    }
}

/// What Ethernet decoding yields on any input: bytes 0–5 are the
/// destination address, 6–11 the source address, 12–13 the big-endian
/// protocol tag, and everything after byte 13 is the frame's payload.
/// Inputs shorter than the 14-byte header are rejected.  No trailing
/// frame-check sequence is expected or verified: link-layer captures
/// strip the trailer already.
pub open spec fn spec_decode_ethernet(s: Seq<u8>) -> Result<SpecFrame, DecodeError> {
    if s.len() < 14 {
        Err(DecodeError::FrameTooShort)
    } else {
        Ok(
            SpecFrame {
                dest: s.subrange(0, 6),
                src: s.subrange(6, 12),
                ether_type: spec_ether_type_of(spec_u16_be(s[12], s[13])),
                data: s.skip(14),
            },
        )
    }
}

/// The model of a decode result: the decoded frame's model on success, the
/// error unchanged on failure.
pub open spec fn spec_frame_result(
    r: Result<EthernetPacket, DecodeError>,
) -> Result<SpecFrame, DecodeError> {
    match r {
        Ok(p) => Ok(p@),
        Err(e) => Err(e),
    }
}

impl EthernetPacket {
    /// Decodes an Ethernet frame.  Pure and stateless: the result is
    /// exactly `spec_decode_ethernet` of the input bytes, and decoding
    /// succeeds if and only if at least the 14 header bytes are there.
    pub fn try_from(data: &[u8]) -> (r: Result<EthernetPacket, DecodeError>)
        ensures
            spec_frame_result(r) == spec_decode_ethernet(data@),
            r is Ok <==> data@.len() >= 14,
    {
        if data.len() < 14 {
            return Err(DecodeError::FrameTooShort);
        }
        let dest_mac = MacAddress([data[0], data[1], data[2], data[3], data[4], data[5]]);
        let src_mac = MacAddress([data[6], data[7], data[8], data[9], data[10], data[11]]);
        let ether_type = EtherType::from(u16_from_pair(data[12], data[13], true));
        let payload = vstd::slice::slice_to_vec(
            vstd::slice::slice_subrange(data, 14, data.len()),
        );
        let packet = EthernetPacket {
            header: EthernetHeader { dest_mac, src_mac, ether_type },
            data: payload,
        };
        proof {
            assert(packet.header.dest_mac.0@ =~= data@.subrange(0, 6));
            assert(packet.header.src_mac.0@ =~= data@.subrange(6, 12));
            assert(packet.data@ =~= data@.skip(14));
            assert(packet@ =~= spec_decode_ethernet(data@)->Ok_0);
        }
        Ok(packet)
    }
}

impl PartialEq for EthernetPacket {
    fn eq(&self, other: &EthernetPacket) -> (r: bool) {
        let r = self.header.dest_mac == other.header.dest_mac && self.header.src_mac
            == other.header.src_mac && self.header.ether_type == other.header.ether_type
            && self.data == other.data;
        proof {
            if r {
                assert(self.data@ =~= other.data@);
                assert(self@ =~= other@);
            } else {
                if self@ == other@ {
                    assert(self.data@ == other.data@);
                    assert(self.data@.len() == other.data@.len());
                }
            }
        }
        r
    }
}

impl Eq for EthernetPacket {

}

impl vstd::std_specs::cmp::PartialEqSpecImpl for EthernetPacket {
    open spec fn obeys_eq_spec() -> bool {
        true
    }

    open spec fn eq_spec(&self, other: &EthernetPacket) -> bool {
        self@ == other@
    }
}

// ---------------------------------------------------------------------------
// IPv4 datagrams
// ---------------------------------------------------------------------------

/// A decoded IPv4 datagram: every scalar field of the fixed header, the
/// two addresses, and an owned copy of every input byte from the end of
/// the header (`ihl` 32-bit words into the input) onward.
#[derive(Debug)]
pub struct IPv4Packet {
    /// Always 4 in a decoded datagram.
    pub version: u8,
    /// Header length in 32-bit words.
    pub ihl: u8,
    pub tos: u8,
    pub total_length: u16,
    pub identification: u16,
    /// The top 3 bits of the flags/fragment-offset word.
    pub flags: u8,
    /// The low 13 bits of the flags/fragment-offset word.
    pub fragment_offset: u16,
    pub ttl: u8,
    pub protocol: u8,
    pub header_checksum: u16,
    pub source_ip: [u8; 4],
    pub dest_ip: [u8; 4],
    pub payload: Vec<u8>,
}

/// The mathematical model of a decoded datagram.
#[verifier::ext_equal]
pub struct SpecDatagram {
    pub version: u8,
    pub ihl: u8,
    pub tos: u8,
    pub total_length: u16,
    pub identification: u16,
    pub flags: u8,
    pub fragment_offset: u16,
    pub ttl: u8,
    pub protocol: u8,
    pub header_checksum: u16,
    pub source_ip: Seq<u8>,
    pub dest_ip: Seq<u8>,
    pub payload: Seq<u8>,
}

impl View for IPv4Packet {
    type V = SpecDatagram;

    open spec fn view(&self) -> SpecDatagram {
        SpecDatagram {
            version: self.version,
            ihl: self.ihl,
            tos: self.tos,
            total_length: self.total_length,
            identification: self.identification,
            flags: self.flags,
            fragment_offset: self.fragment_offset,
            ttl: self.ttl,
            protocol: self.protocol,
            header_checksum: self.header_checksum,
            source_ip: self.source_ip@,
            dest_ip: self.dest_ip@,
            payload: self.payload@,
        }
    }
}

/// What IPv4 decoding yields on any input.  The input is rejected when it
/// is shorter than the 20-byte fixed header, when its version nibble is
/// not 4, when its declared total length exceeds the bytes available, or
/// when the header itself (`ihl` 32-bit words) would extend past the
/// input's end — reading a payload could otherwise start beyond it.  The
/// payload runs from the end of the header to the end of the input, not
/// to `total_length`: trailing link-layer padding is retained, and a
/// caller wanting the protocol-exact payload slices again by
/// `total_length`.
pub open spec fn spec_decode_ipv4(s: Seq<u8>) -> Result<SpecDatagram, DecodeError> {
    if s.len() < 20 {
        Err(DecodeError::DatagramTooShort)
    } else if s[0] >> 4 != 4 {
        Err(DecodeError::ProtocolMismatch)
    } else if s.len() < spec_u16_be(s[2], s[3]) {
        Err(DecodeError::LengthMismatch)
    } else if s.len() < 4 * (s[0] & 0x0f) {
        Err(DecodeError::LengthMismatch)
    } else {
        Ok(
            SpecDatagram {
                version: s[0] >> 4,
                ihl: s[0] & 0x0f,
                tos: s[1],
                total_length: spec_u16_be(s[2], s[3]),
                identification: spec_u16_be(s[4], s[5]),
                flags: s[6] >> 5,
                fragment_offset: spec_u16_be(s[6] & 0x1f, s[7]),
                ttl: s[8],
                protocol: s[9],
                header_checksum: spec_u16_be(s[10], s[11]),
                source_ip: s.subrange(12, 16),
                dest_ip: s.subrange(16, 20),
                payload: s.skip(4 * (s[0] & 0x0f)),
            },
        )
    }
}

/// The model of a decode result: the decoded datagram's model on success,
/// the error unchanged on failure.
pub open spec fn spec_datagram_result(
    r: Result<IPv4Packet, DecodeError>,
) -> Result<SpecDatagram, DecodeError> {
    match r {
        Ok(p) => Ok(p@),
        Err(e) => Err(e),
    }
}

impl IPv4Packet {
    /// Decodes an IPv4 datagram.  Pure and stateless: the result is
    /// exactly `spec_decode_ipv4` of the input bytes, and decoding
    /// succeeds if and only if none of the four rejection conditions
    /// holds.
    pub fn try_from(data: &[u8]) -> (r: Result<IPv4Packet, DecodeError>)
        ensures
            spec_datagram_result(r) == spec_decode_ipv4(data@),
            r is Ok <==> {
                &&& data@.len() >= 20
                &&& data@[0] >> 4 == 4
                &&& data@.len() >= spec_u16_be(data@[2], data@[3])
                &&& data@.len() >= 4 * (data@[0] & 0x0f)
            },
    {
        if data.len() < 20 {
            return Err(DecodeError::DatagramTooShort);
        }
        let version_ihl = data[0];
        let version = version_ihl >> 4;
        let ihl = version_ihl & 0x0f;
        if version != 4 {
            return Err(DecodeError::ProtocolMismatch);
        }
        let total_length = u16_from_pair(data[2], data[3], true);
        if data.len() < total_length as usize {
            return Err(DecodeError::LengthMismatch);
        }
        proof {
            assert(version_ihl & 0x0f < 16) by (bit_vector);
        }
        let header_len: usize = 4 * (ihl as usize);
        if data.len() < header_len {
            return Err(DecodeError::LengthMismatch);
        }
        let packet = IPv4Packet {
            version,
            ihl,
            tos: data[1],
            total_length,
            identification: u16_from_pair(data[4], data[5], true),
            flags: data[6] >> 5,
            fragment_offset: u16_from_pair(data[6] & 0x1f, data[7], true),
            ttl: data[8],
            protocol: data[9],
            header_checksum: u16_from_pair(data[10], data[11], true),
            source_ip: [data[12], data[13], data[14], data[15]],
            dest_ip: [data[16], data[17], data[18], data[19]],
            payload: vstd::slice::slice_to_vec(
                vstd::slice::slice_subrange(data, header_len, data.len()),
            ),
        };
        proof {
            assert(packet.source_ip@ =~= data@.subrange(12, 16));
            assert(packet.dest_ip@ =~= data@.subrange(16, 20));
            assert(packet.payload@ =~= data@.skip(4 * (data@[0] & 0x0f)));
            assert(packet@ =~= spec_decode_ipv4(data@)->Ok_0);
        }
        Ok(packet)
    }
}

impl PartialEq for IPv4Packet {
    fn eq(&self, other: &IPv4Packet) -> (r: bool) {
        let r = self.version == other.version && self.ihl == other.ihl && self.tos == other.tos
            && self.total_length == other.total_length && self.identification
            == other.identification && self.flags == other.flags && self.fragment_offset
            == other.fragment_offset && self.ttl == other.ttl && self.protocol == other.protocol
            && self.header_checksum == other.header_checksum && self.source_ip[0]
            == other.source_ip[0] && self.source_ip[1] == other.source_ip[1] && self.source_ip[2]
            == other.source_ip[2] && self.source_ip[3] == other.source_ip[3] && self.dest_ip[0]
            == other.dest_ip[0] && self.dest_ip[1] == other.dest_ip[1] && self.dest_ip[2]
            == other.dest_ip[2] && self.dest_ip[3] == other.dest_ip[3] && self.payload
            == other.payload;
        proof {
            if r {
                assert(self.source_ip@ =~= other.source_ip@);
                assert(self.dest_ip@ =~= other.dest_ip@);
                assert(self.payload@ =~= other.payload@);
                assert(self@ =~= other@);
            } else {
                if self@ == other@ {
                    assert(self.payload@ == other.payload@);
                    assert(self.payload@.len() == other.payload@.len());
                }
            }
        }
        r
    }
}

impl Eq for IPv4Packet {

}

impl vstd::std_specs::cmp::PartialEqSpecImpl for IPv4Packet {
    open spec fn obeys_eq_spec() -> bool {
        true
    }

    open spec fn eq_spec(&self, other: &IPv4Packet) -> bool {
        self@ == other@
    }
}

// ---------------------------------------------------------------------------
// The Internet checksum of the fixed IPv4 header
// ---------------------------------------------------------------------------

/// The 20 bytes the header checksum is computed over: the fixed header
/// rebuilt from the datagram's fields, with the checksum field's own two
/// bytes zeroed.  Options (when `ihl > 5`) are not included: validation
/// is scope-limited to headers without options.
pub open spec fn spec_checksum_bytes(p: IPv4Packet) -> Seq<u8> {
    seq![
        (p.version << 4) | p.ihl,
        p.tos,
        (p.total_length >> 8) as u8,
        (p.total_length & 0xff) as u8,
        (p.identification >> 8) as u8,
        (p.identification & 0xff) as u8,
        (p.flags << 5) | ((p.fragment_offset >> 8) as u8),
        (p.fragment_offset & 0xff) as u8,
        p.ttl,
        p.protocol,
        0u8,
        0u8,
        p.source_ip@[0],
        p.source_ip@[1],
        p.source_ip@[2],
        p.source_ip@[3],
        p.dest_ip@[0],
        p.dest_ip@[1],
        p.dest_ip@[2],
        p.dest_ip@[3],
    ]
}

/// The plain sum of the big-endian 16-bit words of `s`; an odd trailing
/// byte counts as the high byte of a final word.
pub open spec fn spec_sum16(s: Seq<u8>) -> int
    decreases s.len(),
{
    if s.len() == 0 {
        0
    } else if s.len() == 1 {
        (s[0] as int) * 256
    } else {
        spec_u16_be(s[0], s[1]) + spec_sum16(s.skip(2))
    }
}

/// End-around carry folding: as long as the sum overflows 16 bits, its
/// upper bits are added back onto its lower 16.
pub open spec fn spec_fold16(x: int) -> int
    decreases x,
{
    if x < 0x10000 {
        x
    } else {
        spec_fold16(x % 0x10000 + x / 0x10000)
    }
}

/// The checksum the fixed header of `p` should carry: the one's
/// complement of the end-around-carry-folded word sum of the header
/// bytes, with the checksum field zeroed.
pub open spec fn spec_header_checksum(p: IPv4Packet) -> u16 {
    !(spec_fold16(spec_sum16(spec_checksum_bytes(p))) as u16)
}

impl IPv4Packet {
    /// Recomputes the Internet checksum over the fixed 20-byte header,
    /// with the stored checksum's two bytes zeroed, and compares the
    /// one's-complement result to the stored `header_checksum`.  Returns
    /// whether they agree.
    pub fn validate_checksum(&self) -> (r: bool)
        ensures
            r == (spec_header_checksum(*self) == self.header_checksum),
    {
        let b: [u8; 20] = [
            (self.version << 4) | self.ihl,
            self.tos,
            (self.total_length >> 8) as u8,
            (self.total_length & 0xff) as u8,
            (self.identification >> 8) as u8,
            (self.identification & 0xff) as u8,
            (self.flags << 5) | ((self.fragment_offset >> 8) as u8),
            (self.fragment_offset & 0xff) as u8,
            self.ttl,
            self.protocol,
            0,
            0,
            self.source_ip[0],
            self.source_ip[1],
            self.source_ip[2],
            self.source_ip[3],
            self.dest_ip[0],
            self.dest_ip[1],
            self.dest_ip[2],
            self.dest_ip[3],
        ];
        let ghost hb = spec_checksum_bytes(*self);
        proof {
            assert(b@ =~= hb);
            assert(hb.skip(0) =~= hb);
        }
        let mut sum: u32 = 0;
        let mut i: usize = 0;
        while i < 10
            invariant
                i <= 10,
                b@ == hb,
                sum <= i * 0xffff,
                sum + spec_sum16(hb.skip(2 * i)) == spec_sum16(hb),
            decreases 10 - i,
        {
            let w: u16 = u16_from_pair(b[2 * i], b[2 * i + 1], true);
            proof {
                assert(hb.skip(2 * i as int)[0] == hb[2 * i as int]);
                assert(hb.skip(2 * i as int)[1] == hb[2 * i as int + 1]);
                assert(hb.skip(2 * i as int).skip(2) =~= hb.skip(2 * (i as int + 1)));
            }
            sum = sum + w as u32;
            i = i + 1;
        }
        proof {
            assert(hb.skip(20) =~= Seq::<u8>::empty());
            assert(sum == spec_sum16(hb));
        }
        let ghost total = sum as int;
        while (sum >> 16) != 0
            invariant
                sum <= total,
                spec_fold16(sum as int) == spec_fold16(total),
            decreases sum,
        {
            let lo = sum & 0xffff;
            let hi = sum >> 16;
            proof {
                assert(sum >> 16 != 0 ==> sum >= 0x10000) by (bit_vector);
                assert((sum & 0xffff) == sum % 0x10000) by (bit_vector);
                assert((sum >> 16) == sum / 0x10000) by (bit_vector);
                assert(sum >= 0x10000 ==> sum % 0x10000 + sum / 0x10000 < sum);
            }
            sum = lo + hi;
        }
        proof {
            assert(sum >> 16 == 0 ==> sum < 0x10000) by (bit_vector);
            assert(spec_fold16(sum as int) == sum);
        }
        let checksum: u16 = !(sum as u16);
        checksum == self.header_checksum
    }
}

/// The law behind checksum validation: for a datagram without options
/// (`ihl` 5), the 20 bytes `validate_checksum` rebuilds from the decoded
/// fields are exactly the first 20 input bytes with the checksum field's
/// two bytes zeroed.  What the validator checks is therefore the Internet
/// checksum of the wire header itself, not merely of the fields.  With
/// options (`ihl > 5`) no such identity is claimed: validation stays
/// scope-limited to the fixed header.
pub proof fn lemma_checksum_input_matches_wire(p: IPv4Packet, s: Seq<u8>)
    requires
        spec_decode_ipv4(s) == Ok::<SpecDatagram, DecodeError>(p@),
        p.ihl == 5,
    ensures
        spec_checksum_bytes(p) == s.subrange(0, 20).update(10, 0).update(11, 0),
{
    let b0 = s[0];
    let b2 = s[2];
    let b3 = s[3];
    let b4 = s[4];
    let b5 = s[5];
    let b6 = s[6];
    let b7 = s[7];
    assert(((b0 >> 4) << 4) | (b0 & 0x0f) == b0) by (bit_vector);
    assert((((b2 as u16) << 8 | (b3 as u16)) >> 8) as u8 == b2) by (bit_vector);
    assert((((b2 as u16) << 8 | (b3 as u16)) & 0xff) as u8 == b3) by (bit_vector);
    assert((((b4 as u16) << 8 | (b5 as u16)) >> 8) as u8 == b4) by (bit_vector);
    assert((((b4 as u16) << 8 | (b5 as u16)) & 0xff) as u8 == b5) by (bit_vector);
    assert((((((b6 & 0x1f) as u16) << 8 | (b7 as u16)) >> 8) as u8) == (b6 & 0x1f))
        by (bit_vector);
    assert(((b6 >> 5) << 5) | (b6 & 0x1f) == b6) by (bit_vector);
    assert(((((b6 & 0x1f) as u16) << 8 | (b7 as u16)) & 0xff) as u8 == b7) by (bit_vector);
    assert(p.source_ip@ == s.subrange(12, 16));
    assert(p.dest_ip@ == s.subrange(16, 20));
    assert(spec_checksum_bytes(p) =~= s.subrange(0, 20).update(10, 0).update(11, 0));
}

/// The law of purity: decoding, at either layer, is a function of the
/// input bytes alone — equal inputs yield equal results.  Together with
/// the decoders' contracts, which pin each result to these functions,
/// calling a decoder twice on identical bytes yields structurally equal
/// results.
pub proof fn lemma_decode_pure(a: Seq<u8>, b: Seq<u8>)
    requires
        a == b,
    ensures
        spec_decode_ethernet(a) == spec_decode_ethernet(b),
        spec_decode_ipv4(a) == spec_decode_ipv4(b),
{
}

} // verus!
