//! A layered decoder for network packet captures.
//!
//! The capture container (a global header followed by length-prefixed,
//! timestamped records) is read by [`cap::Capture`], a strictly forward
//! cursor over the capture bytes.  Each record's payload can then be decoded
//! as an Ethernet frame ([`packet::EthernetPacket`]) and, when tagged as
//! IPv4, further as an IPv4 datagram ([`packet::IPv4Packet`]), which also
//! offers Internet-checksum validation.

mod wire;

pub mod cap;
pub mod packet;
