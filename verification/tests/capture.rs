use pcap_decode::cap::{Capture, CaptureError};

/// The 24-byte global header of a little-endian capture: version 2.4,
/// zero time-zone offset and accuracy, snaplen 0xffff, link type 1.
fn le_header() -> Vec<u8> {
    vec![
        0xd4, 0xc3, 0xb2, 0xa1, // magic number
        0x02, 0x00, // version major
        0x04, 0x00, // version minor
        0x00, 0x00, 0x00, 0x00, // thiszone
        0x00, 0x00, 0x00, 0x00, // sigfigs
        0xff, 0xff, 0x00, 0x00, // snaplen
        0x01, 0x00, 0x00, 0x00, // network
    ]
}

#[test]
fn test_capture() {
    let mut bytes = le_header();
    bytes.extend_from_slice(&[
        0x5e, 0x2a, 0x2b, 0x2c, // ts_sec
        0x00, 0x00, 0x00, 0x00, // ts_usec
        0x04, 0x00, 0x00, 0x00, // incl_len
        0x04, 0x00, 0x00, 0x00, // orig_len
        0xde, 0xad, 0xbe, 0xef, // packet data
    ]);

    let mut capture = Capture::from_bytes(bytes).unwrap();
    let header = capture.header();
    assert_eq!(header.magic_number, 0xa1b2c3d4);

    if let Some(packet) = capture.next_packet().unwrap() {
        assert_eq!(packet.header.incl_len, 4);
        assert_eq!(packet.data, vec![0xde, 0xad, 0xbe, 0xef]);
    }
}

#[test]
fn little_endian_magic_selects_little_order() {
    let capture = Capture::from_bytes(le_header()).unwrap();
    let h = capture.header();
    assert_eq!(h.magic_number, 0xa1b2c3d4);
    assert_eq!(h.version_major, 2);
    assert_eq!(h.version_minor, 4);
    assert_eq!(h.snaplen, 0xffff);
    assert_eq!(h.network, 1);
}

#[test]
fn big_endian_magic_selects_big_order() {
    let bytes = vec![
        0xa1, 0xb2, 0xc3, 0xd4, // magic number
        0x00, 0x02, // version major
        0x00, 0x04, // version minor
        0x00, 0x00, 0x00, 0x00, // thiszone
        0x00, 0x00, 0x00, 0x07, // sigfigs
        0x00, 0x00, 0xff, 0xff, // snaplen
        0x00, 0x00, 0x00, 0x01, // network
    ];
    let capture = Capture::from_bytes(bytes).unwrap();
    let h = capture.header();
    assert_eq!(h.magic_number, 0xd4c3b2a1);
    assert_eq!(h.version_major, 2);
    assert_eq!(h.version_minor, 4);
    assert_eq!(h.sigfigs, 7);
    assert_eq!(h.snaplen, 0xffff);
    assert_eq!(h.network, 1);
}

#[test]
fn any_other_magic_is_rejected() {
    let mut bytes = le_header();
    bytes[0] = 0x00;
    assert_eq!(
        Capture::from_bytes(bytes).unwrap_err(),
        CaptureError::InvalidMagic
    );

    let mut reversed = le_header();
    reversed.swap(0, 3);
    reversed.swap(1, 2);
    // a1 b2 c3 d4 reversed into the little-endian slots is valid big-endian
    assert!(Capture::from_bytes(reversed).is_ok());

    assert_eq!(
        Capture::from_bytes(vec![0xde, 0xad, 0xbe, 0xef]).unwrap_err(),
        CaptureError::InvalidMagic
    );
}

#[test]
fn short_global_header_is_truncation() {
    assert_eq!(
        Capture::from_bytes(vec![0xd4, 0xc3]).unwrap_err(),
        CaptureError::Truncated
    );
    let mut bytes = le_header();
    bytes.truncate(10);
    assert_eq!(
        Capture::from_bytes(bytes).unwrap_err(),
        CaptureError::Truncated
    );
}

#[test]
fn thiszone_is_always_least_significant_byte_first() {
    // In a big-endian capture every other field follows the magic's order,
    // but the time-zone offset is still read least-significant-byte-first.
    let bytes = vec![
        0xa1, 0xb2, 0xc3, 0xd4, // magic number
        0x00, 0x02, // version major
        0x00, 0x04, // version minor
        0x10, 0x0e, 0x00, 0x00, // thiszone: 3600 little-endian
        0x00, 0x00, 0x00, 0x00, // sigfigs
        0x00, 0x00, 0xff, 0xff, // snaplen
        0x00, 0x00, 0x00, 0x01, // network
    ];
    let capture = Capture::from_bytes(bytes).unwrap();
    assert_eq!(capture.header().thiszone, 3600);

    let mut negative = le_header();
    negative[8] = 0xff;
    negative[9] = 0xff;
    negative[10] = 0xff;
    negative[11] = 0xff;
    let capture = Capture::from_bytes(negative).unwrap();
    assert_eq!(capture.header().thiszone, -1);
}

#[test]
fn empty_capture_ends_cleanly() {
    let mut capture = Capture::from_bytes(le_header()).unwrap();
    assert!(capture.next_packet().unwrap().is_none());
    // and stays at the clean end on further calls
    assert!(capture.next_packet().unwrap().is_none());
}

#[test]
fn truncated_record_body_is_an_error_not_a_clean_end() {
    // a record declaring 4 captured bytes with only 2 remaining
    let mut bytes = le_header();
    bytes.extend_from_slice(&[
        0x00, 0x00, 0x00, 0x00, // ts_sec
        0x00, 0x00, 0x00, 0x00, // ts_usec
        0x04, 0x00, 0x00, 0x00, // incl_len = 4
        0x04, 0x00, 0x00, 0x00, // orig_len
        0xde, 0xad, // only 2 bytes of body
    ]);
    let mut capture = Capture::from_bytes(bytes).unwrap();
    assert_eq!(
        capture.next_packet().unwrap_err(),
        CaptureError::Truncated
    );
}

#[test]
fn truncated_record_header_is_an_error_not_a_clean_end() {
    let mut bytes = le_header();
    bytes.extend_from_slice(&[0x00, 0x00, 0x00, 0x00, 0x01, 0x02, 0x03]);
    let mut capture = Capture::from_bytes(bytes).unwrap();
    assert_eq!(
        capture.next_packet().unwrap_err(),
        CaptureError::Truncated
    );
}

fn record(ts_sec: u32, data: &[u8]) -> Vec<u8> {
    let mut out = Vec::new();
    out.extend_from_slice(&ts_sec.to_le_bytes());
    out.extend_from_slice(&0u32.to_le_bytes());
    out.extend_from_slice(&(data.len() as u32).to_le_bytes());
    out.extend_from_slice(&(data.len() as u32).to_le_bytes());
    out.extend_from_slice(data);
    out
}

#[test]
fn synthetic_capture_reads_back_identical_records() {
    let bodies: Vec<Vec<u8>> = vec![
        vec![0xde, 0xad, 0xbe, 0xef],
        vec![],
        vec![0x01, 0x02, 0x03, 0x04, 0x05, 0x06, 0x07],
    ];
    let mut bytes = le_header();
    for (i, body) in bodies.iter().enumerate() {
        bytes.extend_from_slice(&record(i as u32, body));
    }

    let mut capture = Capture::from_bytes(bytes).unwrap();
    for (i, body) in bodies.iter().enumerate() {
        let packet = capture.next_packet().unwrap().unwrap();
        assert_eq!(packet.header.ts_sec, i as u32);
        assert_eq!(packet.header.incl_len, body.len() as u32);
        assert_eq!(packet.header.orig_len, body.len() as u32);
        assert_eq!(&packet.data, body);
    }
    // the capture then ends cleanly
    assert!(capture.next_packet().unwrap().is_none());
}

#[test]
fn read_all_packets_drains_the_capture_in_order() {
    let mut bytes = le_header();
    bytes.extend_from_slice(&record(7, &[0xaa]));
    bytes.extend_from_slice(&record(8, &[0xbb, 0xcc]));
    let mut capture = Capture::from_bytes(bytes).unwrap();
    let packets = capture.read_all_packets().unwrap();
    assert_eq!(packets.len(), 2);
    assert_eq!(packets[0].header.ts_sec, 7);
    assert_eq!(packets[0].data, vec![0xaa]);
    assert_eq!(packets[1].header.ts_sec, 8);
    assert_eq!(packets[1].data, vec![0xbb, 0xcc]);
    assert!(capture.next_packet().unwrap().is_none());
}

#[test]
fn read_all_packets_reports_truncation() {
    let mut bytes = le_header();
    bytes.extend_from_slice(&record(1, &[0x11, 0x22]));
    bytes.extend_from_slice(&[0x00, 0x01]); // a ragged tail
    let mut capture = Capture::from_bytes(bytes).unwrap();
    assert_eq!(
        capture.read_all_packets().unwrap_err(),
        CaptureError::Truncated
    );
}

#[test]
fn big_endian_records_follow_the_magic_order() {
    let mut bytes = vec![
        0xa1, 0xb2, 0xc3, 0xd4, // magic number
        0x00, 0x02, // version major
        0x00, 0x04, // version minor
        0x00, 0x00, 0x00, 0x00, // thiszone
        0x00, 0x00, 0x00, 0x00, // sigfigs
        0x00, 0x00, 0xff, 0xff, // snaplen
        0x00, 0x00, 0x00, 0x01, // network
    ];
    bytes.extend_from_slice(&[
        0x00, 0x00, 0x00, 0x09, // ts_sec = 9
        0x00, 0x00, 0x00, 0x01, // ts_usec = 1
        0x00, 0x00, 0x00, 0x03, // incl_len = 3
        0x00, 0x00, 0x00, 0x05, // orig_len = 5
        0x0a, 0x0b, 0x0c,
    ]);
    let mut capture = Capture::from_bytes(bytes).unwrap();
    let packet = capture.next_packet().unwrap().unwrap();
    assert_eq!(packet.header.ts_sec, 9);
    assert_eq!(packet.header.ts_usec, 1);
    assert_eq!(packet.header.incl_len, 3);
    assert_eq!(packet.header.orig_len, 5);
    assert_eq!(packet.data, vec![0x0a, 0x0b, 0x0c]);
    assert!(capture.next_packet().unwrap().is_none());
}
