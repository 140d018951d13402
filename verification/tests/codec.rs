use pica::{
    encode_response, get_message_type, make_measurement, parse_uci_packet, MacAddress,
    MessageType, StatusCode, UciCommand, UciParseResult, UciResponse,
};

#[test]
fn message_type_of_header_byte() {
    assert!(matches!(get_message_type(0x00), MessageType::Data));
    assert!(matches!(get_message_type(0x20), MessageType::Command));
    assert!(matches!(get_message_type(0x41), MessageType::Response));
    assert!(matches!(get_message_type(0x6f), MessageType::Notification));
    assert!(matches!(get_message_type(0x80), MessageType::ReservedForTesting1));
    assert!(matches!(get_message_type(0xa0), MessageType::ReservedForTesting2));
    // Values without a meaning fall back to command.
    assert!(matches!(get_message_type(0xc0), MessageType::Command));
    assert!(matches!(get_message_type(0xe0), MessageType::Command));
}

#[test]
fn unknown_group_id_yields_exact_five_byte_response() {
    // Group id 4 names no group.
    let packet = vec![(1u8 << 5) | 0x4, 0x05, 0, 0];
    match parse_uci_packet(&packet) {
        UciParseResult::ErrorResponse(r) => {
            assert_eq!(r, vec![(2u8 << 5) | 0x4, 0x05, 0, 1, 0x07]);
        }
        _ => panic!("an unknown group id must be answered"),
    }
}

#[test]
fn known_group_unknown_opcode_yields_unknown_oid() {
    // Group 0 is the core group; opcode 0x3f names no command.
    let packet = vec![(1u8 << 5) | 0x0, 0x3f, 0, 0];
    match parse_uci_packet(&packet) {
        UciParseResult::ErrorResponse(r) => {
            assert_eq!(r, vec![(2u8 << 5) | 0x0, 0x3f, 0, 1, 0x08]);
        }
        _ => panic!("an unknown opcode must be answered"),
    }
}

#[test]
fn malformed_then_valid_command_still_parses() {
    let bad = vec![(1u8 << 5) | 0x4, 0x05, 0, 0];
    assert!(matches!(parse_uci_packet(&bad), UciParseResult::ErrorResponse(_)));
    let good = vec![(1u8 << 5) | 0x0, 0x02, 0, 0];
    assert!(matches!(
        parse_uci_packet(&good),
        UciParseResult::UciCommand(UciCommand::GetDeviceInfo)
    ));
}

#[test]
fn responses_and_notifications_are_dropped() {
    let response = vec![(2u8 << 5) | 0x0, 0x02, 0, 0];
    assert!(matches!(parse_uci_packet(&response), UciParseResult::Skip));
    let notification = vec![(3u8 << 5) | 0x1, 0x02, 0, 0];
    assert!(matches!(parse_uci_packet(&notification), UciParseResult::Skip));
}

#[test]
fn session_init_command_parses_fields() {
    let mut packet = vec![(1u8 << 5) | 0x1, 0x00, 0, 5];
    packet.extend_from_slice(&[7, 0, 0, 0, 0]);
    match parse_uci_packet(&packet) {
        UciParseResult::UciCommand(UciCommand::SessionInit { session_id, session_type }) => {
            assert_eq!(session_id, 7);
            assert_eq!(session_type, 0);
        }
        _ => panic!("a well-formed session-init must parse"),
    }
}

#[test]
fn session_set_app_config_parses_tlvs() {
    // session id 7, two entries: own address 0x1122, one destination.
    let mut packet = vec![(1u8 << 5) | 0x1, 0x03, 0, 13];
    packet.extend_from_slice(&[7, 0, 0, 0]);
    packet.push(2);
    packet.extend_from_slice(&[0x06, 2, 0x22, 0x11]);
    packet.extend_from_slice(&[0x07, 2, 0x44, 0x33]);
    match parse_uci_packet(&packet) {
        UciParseResult::UciCommand(UciCommand::SessionSetAppConfig { session_id, params }) => {
            assert_eq!(session_id, 7);
            assert_eq!(params.len(), 2);
            assert_eq!(params[0].tag, 0x06);
            assert_eq!(params[0].value, vec![0x22, 0x11]);
            assert_eq!(params[1].tag, 0x07);
        }
        _ => panic!("a well-formed configuration command must parse"),
    }
}

#[test]
fn truncated_tlv_list_is_an_error_response() {
    // Claims two entries but carries one.
    let mut packet = vec![(1u8 << 5) | 0x1, 0x03, 0, 9];
    packet.extend_from_slice(&[7, 0, 0, 0]);
    packet.push(2);
    packet.extend_from_slice(&[0x06, 2, 0x22, 0x11]);
    assert!(matches!(parse_uci_packet(&packet), UciParseResult::ErrorResponse(_)));
}

#[test]
fn data_packet_parses_session_and_payload() {
    let mut packet = vec![0u8, 0, 14, 0];
    packet.extend_from_slice(&[9, 0, 0, 0]); // session id
    packet.extend_from_slice(&[1, 2, 3, 4, 5, 6, 7, 8]); // destination
    packet.extend_from_slice(&[0xde, 0xad]);
    match parse_uci_packet(&packet) {
        UciParseResult::UciData(d) => {
            assert_eq!(d.session_id, 9);
            assert_eq!(d.payload, vec![0xde, 0xad]);
            assert!(matches!(d.destination, MacAddress::Extended(_)));
        }
        _ => panic!("a well-formed data packet must parse"),
    }
}

#[test]
fn short_data_packet_is_dropped() {
    let packet = vec![0u8, 0, 2, 0, 1, 2];
    assert!(matches!(parse_uci_packet(&packet), UciParseResult::Skip));
}

#[test]
fn encode_session_init_response() {
    let out = encode_response(&UciResponse::SessionInit { status: StatusCode::UciStatusOk });
    assert_eq!(out, vec![(2u8 << 5) | 0x1, 0x00, 0, 1, 0x00]);
}

#[test]
fn encode_device_info_response() {
    let out = encode_response(&UciResponse::GetDeviceInfo {
        status: StatusCode::UciStatusOk,
        uci_version: 2,
        mac_version: 2,
        phy_version: 2,
        uci_test_version: 1,
    });
    assert_eq!(out[0], (2u8 << 5) | 0x0);
    assert_eq!(out[1], 0x02);
    assert_eq!(out[3], 10);
    assert_eq!(out.len(), 14);
    assert_eq!(out[4], 0x00, "status first");
    assert_eq!(&out[5..7], &[2, 0], "version little-endian");
}

#[test]
fn measurement_record_fields() {
    let m = make_measurement(&MacAddress::Short(0x1122), (100, -10, -5), (100, 20, 5))
        .expect("short addresses are measurable");
    assert_eq!(m.mac_address, 0x1122);
    assert_eq!(m.distance, 100);
    assert_eq!(m.aoa_azimuth, (-10i16) as u16);
    assert_eq!(m.aoa_elevation, (-5i8) as u16);
    assert_eq!(m.aoa_destination_azimuth, 20);
    assert_eq!(m.aoa_destination_elevation, 5);
    assert_eq!(m.status, StatusCode::UciStatusOk);
    assert_eq!(m.nlos, 0);
    assert_eq!(m.aoa_azimuth_fom, 100);
    assert_eq!(m.slot_index, 0);
    assert_eq!(m.rssi, 0xff);
}

#[test]
fn extended_address_is_not_measurable() {
    assert!(make_measurement(&MacAddress::Extended(5), (1, 0, 0), (1, 0, 0)).is_none());
}
