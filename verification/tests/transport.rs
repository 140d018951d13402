use pica::{segment_packet, AssembleResult, PacketAssembler, PacketBoundaryFlag};

#[test]
fn packet_boundary_flag_reads_bit_four() {
    assert!(matches!(pica::packet_boundary_flag(0x10), PacketBoundaryFlag::NotComplete));
    assert!(matches!(pica::packet_boundary_flag(0x21), PacketBoundaryFlag::Complete));
}

fn control_packet(gid: u8, oid: u8, payload_len: usize) -> Vec<u8> {
    let mut packet = vec![(1u8 << 5) | gid, oid, 0, 0];
    for i in 0..payload_len {
        packet.push((i % 256) as u8);
    }
    packet
}

fn data_packet(payload_len: usize) -> Vec<u8> {
    let mut packet = vec![0u8, 0, 0, 0];
    for i in 0..payload_len {
        packet.push((i % 256) as u8);
    }
    packet
}

#[test]
fn control_payload_255_is_one_complete_segment() {
    let segments = segment_packet(&control_packet(1, 3, 255));
    assert_eq!(segments.len(), 1);
    assert_eq!(segments[0].len(), 4 + 255);
    assert_eq!(segments[0][0] & 0x10, 0, "PBF must be complete");
    assert_eq!(segments[0][3], 255);
}

#[test]
fn control_payload_256_splits_255_plus_1() {
    let segments = segment_packet(&control_packet(1, 3, 256));
    assert_eq!(segments.len(), 2);
    assert_eq!(segments[0].len(), 4 + 255);
    assert_ne!(segments[0][0] & 0x10, 0, "first PBF must be not-complete");
    assert_eq!(segments[0][3], 255);
    assert_eq!(segments[1].len(), 4 + 1);
    assert_eq!(segments[1][0] & 0x10, 0, "last PBF must be complete");
    assert_eq!(segments[1][3], 1);
}

#[test]
fn data_payload_1024_is_one_segment() {
    let segments = segment_packet(&data_packet(1024));
    assert_eq!(segments.len(), 1);
    assert_eq!(segments[0].len(), 4 + 1024);
    assert_eq!(segments[0][0] & 0x10, 0);
    assert_eq!(segments[0][2] as usize + 256 * segments[0][3] as usize, 1024);
}

#[test]
fn data_payload_1025_splits_1024_plus_1() {
    let segments = segment_packet(&data_packet(1025));
    assert_eq!(segments.len(), 2);
    assert_eq!(segments[0].len(), 4 + 1024);
    assert_ne!(segments[0][0] & 0x10, 0);
    assert_eq!(segments[1].len(), 4 + 1);
    assert_eq!(segments[1][2] as usize + 256 * segments[1][3] as usize, 1);
}

#[test]
fn empty_control_payload_is_one_segment() {
    let segments = segment_packet(&control_packet(0, 2, 0));
    assert_eq!(segments.len(), 1);
    assert_eq!(segments[0].len(), 4);
    assert_eq!(segments[0][3], 0);
}

#[test]
fn segment_headers_preserve_mt_gid_and_second_byte() {
    let segments = segment_packet(&control_packet(2, 0x21, 600));
    assert_eq!(segments.len(), 3);
    for seg in &segments {
        assert_eq!(seg[0] >> 5, 1, "message type kept");
        assert_eq!(seg[0] & 0xf, 2, "group id kept");
        assert_eq!(seg[1], 0x21, "second header byte kept");
    }
}

#[test]
fn write_then_read_restores_the_logical_packet() {
    let packet = control_packet(1, 3, 600);
    let segments = segment_packet(&packet);
    let mut assembler = PacketAssembler::new();
    let mut result = None;
    for seg in &segments {
        let header = [seg[0], seg[1], seg[2], seg[3]];
        let payload: Vec<u8> = seg[4..].to_vec();
        match assembler.push_segment(header, &payload) {
            AssembleResult::Packet(p) => {
                assert!(result.is_none());
                result = Some(p);
            }
            AssembleResult::Pending => {}
            AssembleResult::Unsupported => panic!("stream must stay supported"),
        }
    }
    let reassembled = result.expect("the last segment completes the packet");
    assert_eq!(reassembled[0] >> 5, packet[0] >> 5);
    assert_eq!(reassembled[0] & 0xf, packet[0] & 0xf);
    assert_eq!(reassembled[0] & 0x10, 0, "PBF comes back complete");
    assert_eq!(reassembled[1], packet[1]);
    assert_eq!(&reassembled[4..], &packet[4..], "payload byte for byte");
}

#[test]
fn reassembled_packet_keeps_last_header() {
    // Two segments whose non-length header fields differ: the completed
    // packet must carry the last header's bytes.
    let mut assembler = PacketAssembler::new();
    let first_payload: Vec<u8> = vec![1, 2, 3];
    let r1 = assembler.push_segment([(1 << 5) | 0x10 | 1, 0x00, 0xaa, 3], &first_payload);
    assert!(matches!(r1, AssembleResult::Pending));
    let second_payload: Vec<u8> = vec![4, 5];
    let r2 = assembler.push_segment([(1 << 5) | 2, 0x07, 0xbb, 2], &second_payload);
    match r2 {
        AssembleResult::Packet(p) => {
            assert_eq!(p[0], (1 << 5) | 2, "last header byte 0 kept");
            assert_eq!(p[1], 0x07, "last header byte 1 kept");
            assert_eq!(p[2], 0xbb, "last header byte 2 kept");
            assert_eq!(&p[4..], &[1, 2, 3, 4, 5], "payloads in order");
        }
        _ => panic!("second segment completes the packet"),
    }
}

#[test]
fn many_segments_keep_only_the_last_header() {
    // Four segments whose non-length header fields all differ: the
    // whole run reassembles to the last header plus every payload.
    let segments: Vec<Vec<u8>> = vec![
        vec![(1 << 5) | 0x10 | 0, 0x01, 0x11, 2, 10, 11],
        vec![(1 << 5) | 0x10 | 1, 0x02, 0x22, 1, 12],
        vec![(1 << 5) | 0x10 | 2, 0x03, 0x33, 3, 13, 14, 15],
        vec![(1 << 5) | 3, 0x04, 0x44, 2, 16, 17],
    ];
    let packet = pica::reassemble_packet(&segments);
    assert_eq!(&packet[0..4], &[(1 << 5) | 3, 0x04, 0x44, 2], "the last header survives");
    assert_eq!(&packet[4..], &[10, 11, 12, 13, 14, 15, 16, 17], "payloads in order");
}

#[test]
fn data_fragment_returns_immediately() {
    let mut assembler = PacketAssembler::new();
    // PBF set on a data fragment: it still comes back at once.
    let payload: Vec<u8> = vec![9, 8, 7];
    let r = assembler.push_segment([0x10, 0, 3, 0], &payload);
    match r {
        AssembleResult::Packet(p) => assert_eq!(p, vec![0x10, 0, 3, 0, 9, 8, 7]),
        _ => panic!("data fragments are handed through fragment by fragment"),
    }
}

#[test]
fn data_fragment_inside_control_packet_is_refused() {
    let mut assembler = PacketAssembler::new();
    let first: Vec<u8> = vec![1];
    assert!(matches!(
        assembler.push_segment([(1 << 5) | 0x10 | 1, 0, 0, 1], &first),
        AssembleResult::Pending
    ));
    let data: Vec<u8> = vec![2];
    assert!(matches!(
        assembler.push_segment([0x00, 0, 1, 0], &data),
        AssembleResult::Unsupported
    ));
}
