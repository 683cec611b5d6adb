//! The capture container: a 24-byte global header followed by a sequence of
//! records, each a 16-byte record header and `incl_len` bytes of frame data.
//!
//! Two magic encodings open the container: the byte sequence `d4 c3 b2 a1`
//! selects little-endian decoding of the multi-byte fields, `a1 b2 c3 d4`
//! selects big-endian.  One field is an exception: the time-zone offset
//! (`thiszone`) is always decoded least-significant-byte-first, whatever
//! order the magic selected.  That asymmetry is deliberate, for
//! bit-compatibility with captures read by existing tools.

use vstd::prelude::*;

use crate::wire::{
    i32_from_le_quad, lemma_i32_roundtrip, lemma_u16_roundtrip, lemma_u32_roundtrip, spec_i32_bytes_le,
    spec_i32_of, spec_u16_bytes_with, spec_u16_with, spec_u32_bytes_with, spec_u32_le, spec_u32_with,
    u16_from_pair, u32_from_quad,
};

verus! {

/// The global header of a capture container, decoded.
#[verifier::ext_equal]
#[derive(Debug, Clone, Copy, PartialEq, Eq, Structural)]
pub struct PcapHeader {
    /// The magic number as read least-significant-byte-first, so
    /// `0xa1b2c3d4` for a little-endian capture and `0xd4c3b2a1` for a
    /// big-endian one.
    pub magic_number: u32,
    pub version_major: u16,
    pub version_minor: u16,
    /// Time-zone offset; always decoded least-significant-byte-first (see
    /// the module documentation).
    pub thiszone: i32,
    /// Timestamp accuracy figure.
    pub sigfigs: u32,
    /// Maximum captured length of each record.
    pub snaplen: u32,
    /// Link-layer type identifier.
    pub network: u32,
}

/// The fixed-size header of one record.
#[verifier::ext_equal]
#[derive(Debug, Clone, Copy, PartialEq, Eq, Structural)]
pub struct PcapPacketHeader {
    /// Timestamp, seconds part.
    pub ts_sec: u32,
    /// Timestamp, microseconds part.
    pub ts_usec: u32,
    /// Bytes of frame data actually stored in the capture.
    pub incl_len: u32,
    /// Bytes of the frame as it was on the wire.
    pub orig_len: u32,
}

/// One record: its header and an owned buffer of exactly
/// `header.incl_len` bytes.
#[derive(Debug)]
pub struct PcapPacket {
    pub header: PcapPacketHeader,
    pub data: Vec<u8>,
}

/// The mathematical model of a record: the header with the data as a byte
/// sequence.
#[verifier::ext_equal]
pub struct SpecPacket {
    pub header: PcapPacketHeader,
    pub data: Seq<u8>,
}

impl View for PcapPacket {
    type V = SpecPacket;

    open spec fn view(&self) -> SpecPacket {
        SpecPacket { header: self.header, data: self.data@ }
    }
}

/// A record model is well formed when its header's stored length agrees
/// with its data.
pub open spec fn spec_packet_wf(p: SpecPacket) -> bool {
    p.header.incl_len == p.data.len()
}

/// Reading a capture failed.  Failures at this level are fatal to the
/// reader: a caller should stop reading from it.
#[derive(Debug, Clone, Copy, PartialEq, Eq, Structural)]
pub enum CaptureError {
    /// The first four bytes are neither of the two recognized magic
    /// encodings.
    InvalidMagic,
    /// The stream ended inside the global header, inside a record header,
    /// or inside a record body — as opposed to the clean end of the capture
    /// exactly between records.
    Truncated,
}

// ---------------------------------------------------------------------------
// The container format, as spec functions over the capture bytes
// ---------------------------------------------------------------------------

/// The capture opens with the little-endian magic encoding.
pub open spec fn spec_le_magic(s: Seq<u8>) -> bool {
    s.len() >= 4 && s[0] == 0xd4 && s[1] == 0xc3 && s[2] == 0xb2 && s[3] == 0xa1
}

/// The capture opens with the big-endian magic encoding.
pub open spec fn spec_be_magic(s: Seq<u8>) -> bool {
    s.len() >= 4 && s[0] == 0xa1 && s[1] == 0xb2 && s[2] == 0xc3 && s[3] == 0xd4
}

/// The global header decoded from the first 24 bytes of `s` in the given
/// byte order.  The magic number and `thiszone` are always decoded
/// least-significant-byte-first.
pub open spec fn spec_global_header(s: Seq<u8>, big: bool) -> PcapHeader {
    PcapHeader {
        magic_number: spec_u32_le(s[0], s[1], s[2], s[3]),
        version_major: spec_u16_with(s[4], s[5], big),
        version_minor: spec_u16_with(s[6], s[7], big),
        thiszone: spec_i32_of(spec_u32_le(s[8], s[9], s[10], s[11])),
        sigfigs: spec_u32_with(s[12], s[13], s[14], s[15], big),
        snaplen: spec_u32_with(s[16], s[17], s[18], s[19], big),
        network: spec_u32_with(s[20], s[21], s[22], s[23], big),
    }
}

/// The record header decoded from the 16 bytes of `s` at `pos`.
pub open spec fn spec_packet_header(s: Seq<u8>, pos: int, big: bool) -> PcapPacketHeader {
    PcapPacketHeader {
        ts_sec: spec_u32_with(s[pos], s[pos + 1], s[pos + 2], s[pos + 3], big),
        ts_usec: spec_u32_with(s[pos + 4], s[pos + 5], s[pos + 6], s[pos + 7], big),
        incl_len: spec_u32_with(s[pos + 8], s[pos + 9], s[pos + 10], s[pos + 11], big),
        orig_len: spec_u32_with(s[pos + 12], s[pos + 13], s[pos + 14], s[pos + 15], big),
    }
}

/// A whole record lies in `s` at `pos`: the 16-byte header and the
/// `incl_len` data bytes it declares.
pub open spec fn spec_has_record(s: Seq<u8>, pos: int, big: bool) -> bool {
    &&& pos + 16 <= s.len()
    &&& pos + 16 + spec_packet_header(s, pos, big).incl_len <= s.len()
}

/// The record lying in `s` at `pos`.
pub open spec fn spec_record_at(s: Seq<u8>, pos: int, big: bool) -> SpecPacket {
    let h = spec_packet_header(s, pos, big);
    SpecPacket { header: h, data: s.subrange(pos + 16, pos + 16 + h.incl_len) }
}

/// The position just after the record lying in `s` at `pos`.
pub open spec fn spec_record_end(s: Seq<u8>, pos: int, big: bool) -> int {
    pos + 16 + spec_packet_header(s, pos, big).incl_len
}

/// All records of `s` from `pos` to its end, or `None` if the stream stops
/// inside a record header or a record body.
pub open spec fn spec_read_records(s: Seq<u8>, pos: int, big: bool) -> Option<Seq<SpecPacket>>
    decreases s.len() - pos,
{
    if pos >= s.len() {
        Some(Seq::empty())
    } else if !spec_has_record(s, pos, big) {
        None
    } else {
        match spec_read_records(s, spec_record_end(s, pos, big), big) {
            Some(rest) => Some(seq![spec_record_at(s, pos, big)] + rest),
            None => None,
        }
    }
}

// ---------------------------------------------------------------------------
// The reader
// ---------------------------------------------------------------------------

/// An opened capture: the parsed global header, the detected byte order,
/// and a strictly forward, single-pass cursor over the capture bytes.
#[derive(Debug)]
pub struct Capture {
    data: Vec<u8>,
    pos: usize,
    header: PcapHeader,
    big_endian: bool,
}

impl Capture {
    /// The capture bytes the reader was opened on.
    pub closed spec fn stream(&self) -> Seq<u8> {
        self.data@
    }

    /// The current read position.
    pub closed spec fn cursor(&self) -> int {
        self.pos as int
    }

    /// The byte order the magic number selected.
    pub closed spec fn big(&self) -> bool {
        self.big_endian
    }

    /// The parsed global header.
    pub closed spec fn ghdr(&self) -> PcapHeader {
        self.header
    }

    /// An opened reader stands somewhere between the end of the global
    /// header and the end of the stream.
    pub open spec fn wf(&self) -> bool {
        24 <= self.cursor() <= self.stream().len()
    }

    /// Opens a capture held in memory: validates the magic number, selects
    /// the byte order, and decodes the global header.
    pub fn from_bytes(data: Vec<u8>) -> (r: Result<Capture, CaptureError>)
        ensures
            match r {
                Ok(c) => {
                    &&& data@.len() >= 24
                    &&& (spec_le_magic(data@) || spec_be_magic(data@))
                    &&& c.big() == spec_be_magic(data@)
                    &&& c.ghdr() == spec_global_header(data@, c.big())
                    &&& c.stream() == data@
                    &&& c.cursor() == 24
                    &&& c.wf()
                },
                Err(CaptureError::InvalidMagic) => {
                    &&& data@.len() >= 4
                    &&& !spec_le_magic(data@)
                    &&& !spec_be_magic(data@)
                },
                Err(CaptureError::Truncated) => {
                    &&& data@.len() < 24
                    &&& (data@.len() < 4 || spec_le_magic(data@) || spec_be_magic(data@))
                },
            },
    {
        if data.len() < 4 {
            return Err(CaptureError::Truncated);
        }
        let big: bool;
        if data[0] == 0xd4 && data[1] == 0xc3 && data[2] == 0xb2 && data[3] == 0xa1 {
            big = false;
        } else if data[0] == 0xa1 && data[1] == 0xb2 && data[2] == 0xc3 && data[3] == 0xd4 {
            big = true;
        } else {
            return Err(CaptureError::InvalidMagic);
        }
        if data.len() < 24 {
            return Err(CaptureError::Truncated);
        }
        let header = PcapHeader {
            magic_number: u32_from_quad(data[0], data[1], data[2], data[3], false),
            version_major: u16_from_pair(data[4], data[5], big),
            version_minor: u16_from_pair(data[6], data[7], big),
            thiszone: i32_from_le_quad(data[8], data[9], data[10], data[11]),
            sigfigs: u32_from_quad(data[12], data[13], data[14], data[15], big),
            snaplen: u32_from_quad(data[16], data[17], data[18], data[19], big),
            network: u32_from_quad(data[20], data[21], data[22], data[23], big),
        };
        Ok(Capture { data, pos: 24, header, big_endian: big })
    }

    /// The parsed global header.
    pub fn header(&self) -> (h: &PcapHeader)
        ensures
            *h == self.ghdr(),
    {
        &self.header
    }

    /// Reads the next record.  `Ok(None)` is the clean end of the capture:
    /// the cursor stood exactly at the end of the stream.  A stream that
    /// ends inside the 16-byte record header or inside the record body
    /// yields a truncation error instead, and the reader does not advance.
    ///
    /// The record's declared length comes from untrusted input, so the
    /// record buffer is allocated only after the length is checked against
    /// the bytes actually remaining: a crafted length cannot force an
    /// allocation beyond the capture's own size.
    pub fn next_packet(&mut self) -> (r: Result<Option<PcapPacket>, CaptureError>)
        requires
            old(self).wf(),
        ensures
            final(self).stream() == old(self).stream(),
            final(self).big() == old(self).big(),
            final(self).ghdr() == old(self).ghdr(),
            final(self).wf(),
            match r {
                Ok(None) => {
                    &&& old(self).cursor() == old(self).stream().len()
                    &&& final(self).cursor() == old(self).cursor()
                },
                Ok(Some(p)) => {
                    &&& spec_has_record(old(self).stream(), old(self).cursor(), old(self).big())
                    &&& p@ == spec_record_at(old(self).stream(), old(self).cursor(), old(self).big())
                    &&& final(self).cursor() == spec_record_end(
                        old(self).stream(),
                        old(self).cursor(),
                        old(self).big(),
                    )
                },
                Err(e) => {
                    &&& e == CaptureError::Truncated
                    &&& old(self).cursor() < old(self).stream().len()
                    &&& !spec_has_record(old(self).stream(), old(self).cursor(), old(self).big())
                    &&& final(self).cursor() == old(self).cursor()
                },
            },
    {
        let remaining = self.data.len() - self.pos;
        if remaining == 0 {
            return Ok(None);
        }
        if remaining < 16 {
            return Err(CaptureError::Truncated);
        }
        let p = self.pos;
        let header = PcapPacketHeader {
            ts_sec: u32_from_quad(
                self.data[p],
                self.data[p + 1],
                self.data[p + 2],
                self.data[p + 3],
                self.big_endian,
            ),
            ts_usec: u32_from_quad(
                self.data[p + 4],
                self.data[p + 5],
                self.data[p + 6],
                self.data[p + 7],
                self.big_endian,
            ),
            incl_len: u32_from_quad(
                self.data[p + 8],
                self.data[p + 9],
                self.data[p + 10],
                self.data[p + 11],
                self.big_endian,
            ),
            orig_len: u32_from_quad(
                self.data[p + 12],
                self.data[p + 13],
                self.data[p + 14],
                self.data[p + 15],
                self.big_endian,
            ),
        };
        let incl = header.incl_len as usize;
        if remaining - 16 < incl {
            return Err(CaptureError::Truncated);
        }
        let body = vstd::slice::slice_to_vec(
            vstd::slice::slice_subrange(self.data.as_slice(), p + 16, p + 16 + incl),
        );
        self.pos = p + 16 + incl;
        Ok(Some(PcapPacket { header, data: body }))
    }

    /// Drains the capture: reads records until the clean end, or until the
    /// stream proves truncated.  On success the result holds every record
    /// that stood between the cursor and the end of the stream, in order.
    pub fn read_all_packets(&mut self) -> (r: Result<Vec<PcapPacket>, CaptureError>)
        requires
            old(self).wf(),
        ensures
            final(self).stream() == old(self).stream(),
            final(self).big() == old(self).big(),
            final(self).ghdr() == old(self).ghdr(),
            final(self).wf(),
            match r {
                Ok(v) => {
                    &&& spec_read_records(old(self).stream(), old(self).cursor(), old(self).big())
                        == Some(v@.map_values(|p: PcapPacket| p@))
                    &&& final(self).cursor() == old(self).stream().len()
                },
                Err(e) => {
                    &&& e == CaptureError::Truncated
                    &&& spec_read_records(old(self).stream(), old(self).cursor(), old(self).big())
                        is None
                },
            },
    {
        let ghost s = self.stream();
        let ghost pos0 = self.cursor();
        let ghost big = self.big();
        let ghost h0 = self.ghdr();
        let mut out: Vec<PcapPacket> = Vec::new();
        loop
            invariant
                s == old(self).stream(),
                pos0 == old(self).cursor(),
                big == old(self).big(),
                h0 == old(self).ghdr(),
                self.wf(),
                self.stream() == s,
                self.big() == big,
                self.ghdr() == h0,
                spec_prepend_records(
                    out@.map_values(|p: PcapPacket| p@),
                    spec_read_records(s, self.cursor(), big),
                ) == spec_read_records(s, pos0, big),
            decreases s.len() - self.cursor(),
        {
            let ghost pos = self.cursor();
            let ghost acc = out@.map_values(|p: PcapPacket| p@);
            match self.next_packet() {
                Ok(None) => {
                    proof {
                        assert(acc + Seq::<SpecPacket>::empty() =~= acc);
                    }
                    return Ok(out);
                },
                Ok(Some(p)) => {
                    let ghost rec = p@;
                    out.push(p);
                    proof {
                        assert(out@.map_values(|q: PcapPacket| q@) =~= acc + seq![rec]);
                        match spec_read_records(s, self.cursor(), big) {
                            Some(rest) => {
                                assert(spec_read_records(s, pos, big) == Some(seq![rec] + rest));
                                assert((acc + seq![rec]) + rest =~= acc + (seq![rec] + rest));
                            },
                            None => {
                                assert(spec_read_records(s, pos, big) is None);
                            },
                        }
                    }
                },
                Err(e) => {
                    return Err(e);
                },
            }
        }
    }
}

/// Prefixes `acc` onto a parse result, keeping a parse failure a failure.
pub open spec fn spec_prepend_records(
    acc: Seq<SpecPacket>,
    r: Option<Seq<SpecPacket>>,
) -> Option<Seq<SpecPacket>> {
    match r {
        Some(rest) => Some(acc + rest),
        None => None,
    }
}

// ---------------------------------------------------------------------------
// Encoding a capture, and the round trip through the reader
// ---------------------------------------------------------------------------

/// The 16-byte encoding of a record header in the given order.
pub open spec fn spec_encode_packet_header(h: PcapPacketHeader, big: bool) -> Seq<u8> {
    spec_u32_bytes_with(h.ts_sec, big) + spec_u32_bytes_with(h.ts_usec, big)
        + spec_u32_bytes_with(h.incl_len, big) + spec_u32_bytes_with(h.orig_len, big)
}

/// The encoding of a whole record: its header, then its data bytes.
pub open spec fn spec_encode_packet(p: SpecPacket, big: bool) -> Seq<u8> {
    spec_encode_packet_header(p.header, big) + p.data
}

/// The encoding of a sequence of records, one after the other.
pub open spec fn spec_encode_records(rs: Seq<SpecPacket>, big: bool) -> Seq<u8>
    decreases rs.len(),
{
    if rs.len() == 0 {
        Seq::empty()
    } else {
        spec_encode_packet(rs[0], big) + spec_encode_records(rs.skip(1), big)
    }
}

/// The 24-byte encoding of a global header.  The magic bytes follow from
/// the byte order alone; the time-zone offset is always encoded
/// least-significant-byte-first, like every capture writer encodes it.
pub open spec fn spec_encode_global_header(h: PcapHeader, big: bool) -> Seq<u8> {
    (if big {
        seq![0xa1u8, 0xb2u8, 0xc3u8, 0xd4u8]
    } else {
        seq![0xd4u8, 0xc3u8, 0xb2u8, 0xa1u8]
    }) + spec_u16_bytes_with(h.version_major, big) + spec_u16_bytes_with(h.version_minor, big)
        + spec_i32_bytes_le(h.thiszone) + spec_u32_bytes_with(h.sigfigs, big)
        + spec_u32_bytes_with(h.snaplen, big) + spec_u32_bytes_with(h.network, big)
}

/// The magic number value that `spec_global_header` reads out of a capture
/// whose magic bytes encode the given order.
pub open spec fn spec_magic_value(big: bool) -> u32 {
    if big {
        0xd4c3b2a1u32
    } else {
        0xa1b2c3d4u32
    }
}

/// A part of a window into `s` known byte for byte is itself known: the
/// bytes of `s` from `pos + a` to `pos + b` are the bytes `a` to `b` of
/// whatever the window from `pos` to `pos + len` equals.
proof fn lemma_subrange_of_eq(s: Seq<u8>, pos: int, len: int, e: Seq<u8>, a: int, b: int)
    requires
        0 <= pos,
        pos + len <= s.len(),
        e.len() == len,
        s.subrange(pos, pos + len) == e,
        0 <= a <= b <= len,
    ensures
        s.subrange(pos + a, pos + b) == e.subrange(a, b),
{
    assert forall|i: int| 0 <= i < b - a implies s.subrange(pos + a, pos + b)[i] == e.subrange(
        a,
        b,
    )[i] by {
        assert(s.subrange(pos, pos + len)[a + i] == s[pos + a + i]);
    }
    assert(s.subrange(pos + a, pos + b) =~= e.subrange(a, b));
}

/// A 32-bit value encoded at `pos` reads back as itself.
proof fn lemma_u32_at(s: Seq<u8>, pos: int, x: u32, big: bool)
    requires
        0 <= pos,
        pos + 4 <= s.len(),
        s.subrange(pos, pos + 4) == spec_u32_bytes_with(x, big),
    ensures
        spec_u32_with(s[pos], s[pos + 1], s[pos + 2], s[pos + 3], big) == x,
{
    assert(s[pos] == s.subrange(pos, pos + 4)[0]);
    assert(s[pos + 1] == s.subrange(pos, pos + 4)[1]);
    assert(s[pos + 2] == s.subrange(pos, pos + 4)[2]);
    assert(s[pos + 3] == s.subrange(pos, pos + 4)[3]);
    lemma_u32_roundtrip(x, big);
}

/// A 16-bit value encoded at `pos` reads back as itself.
proof fn lemma_u16_at(s: Seq<u8>, pos: int, x: u16, big: bool)
    requires
        0 <= pos,
        pos + 2 <= s.len(),
        s.subrange(pos, pos + 2) == spec_u16_bytes_with(x, big),
    ensures
        spec_u16_with(s[pos], s[pos + 1], big) == x,
{
    assert(s[pos] == s.subrange(pos, pos + 2)[0]);
    assert(s[pos + 1] == s.subrange(pos, pos + 2)[1]);
    lemma_u16_roundtrip(x, big);
}

/// A signed 32-bit value encoded least-significant-byte-first at `pos`
/// reads back as itself.
proof fn lemma_i32_at(s: Seq<u8>, pos: int, x: i32)
    requires
        0 <= pos,
        pos + 4 <= s.len(),
        s.subrange(pos, pos + 4) == spec_i32_bytes_le(x),
    ensures
        spec_i32_of(spec_u32_le(s[pos], s[pos + 1], s[pos + 2], s[pos + 3])) == x,
{
    assert(s[pos] == s.subrange(pos, pos + 4)[0]);
    assert(s[pos + 1] == s.subrange(pos, pos + 4)[1]);
    assert(s[pos + 2] == s.subrange(pos, pos + 4)[2]);
    assert(s[pos + 3] == s.subrange(pos, pos + 4)[3]);
    lemma_i32_roundtrip(x);
}

/// A record header encoded at `pos` parses back as itself.
proof fn lemma_packet_header_parses(s: Seq<u8>, pos: int, h: PcapPacketHeader, big: bool)
    requires
        0 <= pos,
        pos + 16 <= s.len(),
        s.subrange(pos, pos + 16) == spec_encode_packet_header(h, big),
    ensures
        spec_packet_header(s, pos, big) == h,
{
    let e = spec_encode_packet_header(h, big);
    assert(e.len() == 16);
    lemma_subrange_of_eq(s, pos, 16, e, 0, 4);
    lemma_subrange_of_eq(s, pos, 16, e, 4, 8);
    lemma_subrange_of_eq(s, pos, 16, e, 8, 12);
    lemma_subrange_of_eq(s, pos, 16, e, 12, 16);
    assert(e.subrange(0, 4) =~= spec_u32_bytes_with(h.ts_sec, big));
    assert(e.subrange(4, 8) =~= spec_u32_bytes_with(h.ts_usec, big));
    assert(e.subrange(8, 12) =~= spec_u32_bytes_with(h.incl_len, big));
    assert(e.subrange(12, 16) =~= spec_u32_bytes_with(h.orig_len, big));
    lemma_u32_at(s, pos, h.ts_sec, big);
    lemma_u32_at(s, pos + 4, h.ts_usec, big);
    lemma_u32_at(s, pos + 8, h.incl_len, big);
    lemma_u32_at(s, pos + 12, h.orig_len, big);
    assert(spec_packet_header(s, pos, big) =~= h);
}

/// A well-formed record encoded at `pos` parses back as itself, ending
/// where its encoding ends.
proof fn lemma_record_parses(s: Seq<u8>, pos: int, p: SpecPacket, big: bool)
    requires
        spec_packet_wf(p),
        0 <= pos,
        pos + 16 + p.data.len() <= s.len(),
        s.subrange(pos, pos + 16 + p.data.len() as int) == spec_encode_packet(p, big),
    ensures
        spec_has_record(s, pos, big),
        spec_record_at(s, pos, big) == p,
        spec_record_end(s, pos, big) == pos + 16 + p.data.len(),
{
    let n = p.data.len() as int;
    let e = spec_encode_packet(p, big);
    assert(spec_encode_packet_header(p.header, big).len() == 16);
    assert(e.len() == 16 + n);
    lemma_subrange_of_eq(s, pos, 16 + n, e, 0, 16);
    assert(e.subrange(0, 16) =~= spec_encode_packet_header(p.header, big));
    lemma_packet_header_parses(s, pos, p.header, big);
    lemma_subrange_of_eq(s, pos, 16 + n, e, 16, 16 + n);
    assert(e.subrange(16, 16 + n) =~= p.data);
    assert(spec_record_at(s, pos, big) =~= p);
}

/// The law of the record stream: a capture body built by encoding
/// well-formed records `rs` one after the other, read back record by
/// record, yields exactly `rs` and then the clean end of the stream.
pub proof fn lemma_records_roundtrip(s: Seq<u8>, pos: int, rs: Seq<SpecPacket>, big: bool)
    requires
        0 <= pos <= s.len(),
        forall|i: int| 0 <= i < rs.len() ==> spec_packet_wf(#[trigger] rs[i]),
        s.subrange(pos, s.len() as int) == spec_encode_records(rs, big),
    ensures
        spec_read_records(s, pos, big) == Some(rs),
    decreases rs.len(),
{
    if rs.len() == 0 {
        assert(s.subrange(pos, s.len() as int).len() == 0);
        assert(pos == s.len());
        assert(rs =~= Seq::<SpecPacket>::empty());
    } else {
        let p0 = rs[0];
        let n = p0.data.len() as int;
        let end = pos + 16 + n;
        let enc0 = spec_encode_packet(p0, big);
        let rest = spec_encode_records(rs.skip(1), big);
        let e = spec_encode_records(rs, big);
        assert(e == enc0 + rest);
        assert(spec_encode_packet_header(p0.header, big).len() == 16);
        assert(enc0.len() == 16 + n);
        let total = s.len() - pos;
        assert(total == enc0.len() + rest.len());
        lemma_subrange_of_eq(s, pos, total, e, 0, 16 + n);
        assert(e.subrange(0, 16 + n) =~= enc0);
        lemma_record_parses(s, pos, p0, big);
        lemma_subrange_of_eq(s, pos, total, e, 16 + n, total);
        assert(e.subrange(16 + n, total) =~= rest);
        assert(s.subrange(end, s.len() as int) == rest);
        assert(forall|i: int|
            0 <= i < rs.skip(1).len() ==> spec_packet_wf(#[trigger] rs.skip(1)[i]));
        lemma_records_roundtrip(s, end, rs.skip(1), big);
        assert(spec_read_records(s, end, big) == Some(rs.skip(1)));
        assert(pos < s.len());
        assert(seq![spec_record_at(s, pos, big)] + rs.skip(1) =~= rs);
    }
}

/// The law of the whole container: a capture built from a global header
/// `h` and well-formed records `rs`, in either byte order, opens with the
/// matching magic, parses back to `h`, and yields exactly the records
/// `rs` followed by the clean end.  `h.magic_number` must hold the value
/// the reader reports for that order, since the reader reads it back out
/// of the magic bytes themselves.
#[verifier::rlimit(60)]
pub proof fn lemma_capture_roundtrip(h: PcapHeader, rs: Seq<SpecPacket>, big: bool)
    requires
        h.magic_number == spec_magic_value(big),
        forall|i: int| 0 <= i < rs.len() ==> spec_packet_wf(#[trigger] rs[i]),
    ensures
        ({
            let s = spec_encode_global_header(h, big) + spec_encode_records(rs, big);
            &&& spec_be_magic(s) == big
            &&& spec_le_magic(s) == !big
            &&& spec_global_header(s, big) == h
            &&& spec_read_records(s, 24, big) == Some(rs)
        }),
{
    let eh = spec_encode_global_header(h, big);
    let body = spec_encode_records(rs, big);
    let s = eh + body;
    assert(eh.len() == 24);
    assert(forall|k: int| 0 <= k < 24 ==> #[trigger] s[k] == eh[k]);
    if big {
        assert(spec_be_magic(s));
        assert(!spec_le_magic(s));
        assert(((0xd4u8 as u32) << 24 | (0xc3u8 as u32) << 16 | (0xb2u8 as u32) << 8
            | (0xa1u8 as u32)) == 0xd4c3b2a1u32) by (bit_vector);
        assert(spec_u32_le(s[0], s[1], s[2], s[3]) == 0xd4c3b2a1u32);
    } else {
        assert(spec_le_magic(s));
        assert(!spec_be_magic(s));
        assert(((0xa1u8 as u32) << 24 | (0xb2u8 as u32) << 16 | (0xc3u8 as u32) << 8
            | (0xd4u8 as u32)) == 0xa1b2c3d4u32) by (bit_vector);
        assert(spec_u32_le(s[0], s[1], s[2], s[3]) == 0xa1b2c3d4u32);
    }
    assert(s.subrange(0, 24) =~= eh);
    lemma_subrange_of_eq(s, 0, 24, eh, 4, 6);
    assert(eh.subrange(4, 6) =~= spec_u16_bytes_with(h.version_major, big));
    lemma_u16_at(s, 4, h.version_major, big);
    lemma_subrange_of_eq(s, 0, 24, eh, 6, 8);
    assert(eh.subrange(6, 8) =~= spec_u16_bytes_with(h.version_minor, big));
    lemma_u16_at(s, 6, h.version_minor, big);
    lemma_subrange_of_eq(s, 0, 24, eh, 8, 12);
    assert(eh.subrange(8, 12) =~= spec_i32_bytes_le(h.thiszone));
    lemma_i32_at(s, 8, h.thiszone);
    lemma_subrange_of_eq(s, 0, 24, eh, 12, 16);
    assert(eh.subrange(12, 16) =~= spec_u32_bytes_with(h.sigfigs, big));
    lemma_u32_at(s, 12, h.sigfigs, big);
    lemma_subrange_of_eq(s, 0, 24, eh, 16, 20);
    assert(eh.subrange(16, 20) =~= spec_u32_bytes_with(h.snaplen, big));
    lemma_u32_at(s, 16, h.snaplen, big);
    lemma_subrange_of_eq(s, 0, 24, eh, 20, 24);
    assert(eh.subrange(20, 24) =~= spec_u32_bytes_with(h.network, big));
    lemma_u32_at(s, 20, h.network, big);
    assert(spec_global_header(s, big) =~= h);
    assert(s.subrange(24, s.len() as int) =~= body);
    lemma_records_roundtrip(s, 24, rs, big);
}

} // verus!
