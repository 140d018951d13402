use pica::{
    encode_notification, AppConfigTlv, MacAddress, Pica, Position, ReasonCode, SessionState,
    StatusCode, TimerOp, UciCommand, UciNotification, UciResponse,
};

#[test]
fn encode_data_credit_notification() {
    let ntf = UciNotification::DataCredit { session_id: 7, credit_availability: 1 };
    let out = encode_notification(&ntf);
    assert_eq!(out, vec![(3u8 << 5) | 2, 4, 0, 5, 7, 0, 0, 0, 1]);
}

#[test]
fn encode_session_status_notification() {
    let ntf = UciNotification::SessionStatus {
        session_id: 7,
        session_state: SessionState::SessionStateIdle,
        reason_code: ReasonCode::SessionStoppedDueToInbandSignal,
    };
    let out = encode_notification(&ntf);
    assert_eq!(out, vec![(3u8 << 5) | 1, 2, 0, 6, 7, 0, 0, 0, 0x03, 0x05]);
}

#[test]
fn encode_session_info_notification_layout() {
    let mut p = Pica::new();
    let (h1, _) = p.connect().unwrap();
    p.create_anchor(MacAddress::Short(0xaa), Position::new(100, 0, 0, 0, 0)).0.unwrap();
    p.command(h1, &UciCommand::SessionInit { session_id: 7, session_type: 0 }).unwrap();
    let params = vec![
        AppConfigTlv { tag: 0x06, value: vec![0x11, 0x00] },
        AppConfigTlv { tag: 0x07, value: vec![0xaa, 0x00] },
    ];
    p.command(h1, &UciCommand::SessionSetAppConfig { session_id: 7, params }).unwrap();
    p.command(h1, &UciCommand::SessionStart { session_id: 7 }).unwrap();
    let ntf = p.ranging(h1, 7).unwrap();
    let out = encode_notification(&UciNotification::SessionInfo(ntf));
    assert_eq!(out[0], (3u8 << 5) | 2);
    assert_eq!(out[1], 0);
    // sequence number, session id, rcr indicator, interval, count
    assert_eq!(&out[4..8], &[0, 0, 0, 0]);
    assert_eq!(&out[8..12], &[7, 0, 0, 0]);
    assert_eq!(out[12], 0);
    assert_eq!(&out[13..17], &[0, 0, 0, 0]);
    assert_eq!(out[17], 1, "one measurement");
    assert_eq!(out.len(), 18 + 20, "twenty bytes per measurement");
    assert_eq!(&out[18..20], &[0xaa, 0x00], "peer address little-endian");
    assert_eq!(out[20], 0x00, "status ok");
    assert_eq!(&out[22..24], &[100, 0], "distance little-endian");
}

#[test]
fn ranging_interval_and_policy_come_from_the_configuration() {
    let mut p = Pica::new();
    let (h, _) = p.connect().unwrap();
    p.command(h, &UciCommand::SessionInit { session_id: 7, session_type: 0 }).unwrap();
    let params = vec![
        AppConfigTlv { tag: 0x06, value: vec![0x11, 0x00] },
        AppConfigTlv { tag: 0x07, value: vec![0x22, 0x00] },
        AppConfigTlv { tag: 0x09, value: vec![0xe8, 0x03, 0, 0] },
        AppConfigTlv { tag: 0x11, value: vec![1] },
    ];
    let outcome = p.command(h, &UciCommand::SessionSetAppConfig { session_id: 7, params }).unwrap();
    assert_eq!(
        outcome.response,
        UciResponse::SessionSetAppConfig { status: StatusCode::UciStatusOk }
    );
    assert_eq!(p.devices[0].sessions[0].app_config.ranging_interval_ms, 1000);
    let outcome = p.command(h, &UciCommand::SessionStart { session_id: 7 }).unwrap();
    assert_eq!(outcome.timer_ops, vec![TimerOp::Start { session_id: 7, interval_ms: 1000 }]);
}

#[test]
fn sequence_number_wraps_at_the_register_width() {
    let mut p = Pica::new();
    let (h1, _) = p.connect().unwrap();
    let (h2, _) = p.connect().unwrap();
    for (h, own, dst) in [(h1, 0x11u16, 0x22u16), (h2, 0x22, 0x11)] {
        p.command(h, &UciCommand::SessionInit { session_id: 7, session_type: 0 }).unwrap();
        let params = vec![
            AppConfigTlv { tag: 0x06, value: vec![(own & 0xff) as u8, (own >> 8) as u8] },
            AppConfigTlv { tag: 0x07, value: vec![(dst & 0xff) as u8, (dst >> 8) as u8] },
        ];
        p.command(h, &UciCommand::SessionSetAppConfig { session_id: 7, params }).unwrap();
        p.command(h, &UciCommand::SessionStart { session_id: 7 }).unwrap();
    }
    p.devices[0].sessions[0].sequence_number = u32::MAX;
    let ntf = p.ranging(h1, 7).unwrap();
    assert_eq!(ntf.sequence_number, u32::MAX);
    assert_eq!(p.devices[0].sessions[0].sequence_number, 0);
}

#[test]
fn anchor_and_peer_destinations_both_report() {
    let mut p = Pica::new();
    let (h1, _) = p.connect().unwrap();
    let (h2, _) = p.connect().unwrap();
    p.create_anchor(MacAddress::Short(0xaa), Position::new(0, 100, 0, 0, 0)).0.unwrap();
    p.set_position(MacAddress::Short(1), Position::new(100, 0, 0, 0, 0)).0.unwrap();
    p.command(h1, &UciCommand::SessionInit { session_id: 7, session_type: 0 }).unwrap();
    let params = vec![
        AppConfigTlv { tag: 0x06, value: vec![0x11, 0x00] },
        AppConfigTlv { tag: 0x07, value: vec![0xaa, 0x00, 0x22, 0x00] },
    ];
    p.command(h1, &UciCommand::SessionSetAppConfig { session_id: 7, params }).unwrap();
    p.command(h1, &UciCommand::SessionStart { session_id: 7 }).unwrap();
    p.command(h2, &UciCommand::SessionInit { session_id: 7, session_type: 0 }).unwrap();
    let params = vec![
        AppConfigTlv { tag: 0x06, value: vec![0x22, 0x00] },
        AppConfigTlv { tag: 0x07, value: vec![0x11, 0x00] },
    ];
    p.command(h2, &UciCommand::SessionSetAppConfig { session_id: 7, params }).unwrap();
    p.command(h2, &UciCommand::SessionStart { session_id: 7 }).unwrap();
    let ntf = p.ranging(h1, 7).unwrap();
    assert_eq!(ntf.two_way_ranging_measurements.len(), 2);
    assert_eq!(ntf.two_way_ranging_measurements[0].mac_address, 0xaa);
    assert_eq!(ntf.two_way_ranging_measurements[0].distance, 100);
    assert_eq!(ntf.two_way_ranging_measurements[1].mac_address, 0x22);
    assert_eq!(ntf.two_way_ranging_measurements[1].distance, 100);
}

#[test]
fn anchor_shadows_a_peer_claiming_the_same_address() {
    // One destination address held by an anchor and also claimed by a
    // compatible active peer session: the anchor alone is measured.
    let mut p = Pica::new();
    let (h1, _) = p.connect().unwrap();
    let (h2, _) = p.connect().unwrap();
    p.create_anchor(MacAddress::Short(0x22), Position::new(0, 50, 0, 0, 0)).0.unwrap();
    p.set_position(MacAddress::Short(1), Position::new(100, 0, 0, 0, 0)).0.unwrap();
    for (h, own, dst) in [(h1, 0x11u8, 0x22u8), (h2, 0x22, 0x11)] {
        p.command(h, &UciCommand::SessionInit { session_id: 7, session_type: 0 }).unwrap();
        let params = vec![
            AppConfigTlv { tag: 0x06, value: vec![own, 0x00] },
            AppConfigTlv { tag: 0x07, value: vec![dst, 0x00] },
        ];
        p.command(h, &UciCommand::SessionSetAppConfig { session_id: 7, params }).unwrap();
        p.command(h, &UciCommand::SessionStart { session_id: 7 }).unwrap();
    }
    let ntf = p.ranging(h1, 7).unwrap();
    assert_eq!(ntf.two_way_ranging_measurements.len(), 1, "the anchor shadows the peer");
    assert_eq!(ntf.two_way_ranging_measurements[0].mac_address, 0x22);
    assert_eq!(ntf.two_way_ranging_measurements[0].distance, 50, "the anchor's distance");
}

#[test]
fn incompatible_peer_configuration_is_unreachable() {
    let mut p = Pica::new();
    let (h1, _) = p.connect().unwrap();
    let (h2, _) = p.connect().unwrap();
    p.command(h1, &UciCommand::SessionInit { session_id: 7, session_type: 0 }).unwrap();
    let params = vec![
        AppConfigTlv { tag: 0x06, value: vec![0x11, 0x00] },
        AppConfigTlv { tag: 0x07, value: vec![0x22, 0x00] },
    ];
    p.command(h1, &UciCommand::SessionSetAppConfig { session_id: 7, params }).unwrap();
    p.command(h1, &UciCommand::SessionStart { session_id: 7 }).unwrap();
    p.command(h2, &UciCommand::SessionInit { session_id: 7, session_type: 0 }).unwrap();
    let params = vec![
        AppConfigTlv { tag: 0x06, value: vec![0x22, 0x00] },
        AppConfigTlv { tag: 0x07, value: vec![0x11, 0x00] },
        // A different channel: the peers cannot range together.
        AppConfigTlv { tag: 0x04, value: vec![5] },
    ];
    p.command(h2, &UciCommand::SessionSetAppConfig { session_id: 7, params }).unwrap();
    p.command(h2, &UciCommand::SessionStart { session_id: 7 }).unwrap();
    let ntf = p.ranging(h1, 7).unwrap();
    assert_eq!(ntf.two_way_ranging_measurements.len(), 0);
}
