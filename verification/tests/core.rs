use pica::{
    AppConfigTlv, Category, DeviceState, MacAddress, Pica, PicaCommandError, PicaEvent, Position,
    SessionState, StatusCode, TimerOp, UciCommand, UciNotification, UciResponse,
};

fn config(own: u16, dst: u16) -> Vec<AppConfigTlv> {
    vec![
        AppConfigTlv { tag: 0x06, value: vec![(own & 0xff) as u8, (own >> 8) as u8] },
        AppConfigTlv { tag: 0x07, value: vec![(dst & 0xff) as u8, (dst >> 8) as u8] },
    ]
}

fn start_session(p: &mut Pica, handle: usize, session_id: u32, own: u16, dst: u16) {
    let outcome = p
        .command(handle, &UciCommand::SessionInit { session_id, session_type: 0 })
        .expect("device must exist");
    assert_eq!(outcome.response, UciResponse::SessionInit { status: StatusCode::UciStatusOk });
    let outcome = p
        .command(handle, &UciCommand::SessionSetAppConfig { session_id, params: config(own, dst) })
        .expect("device must exist");
    assert_eq!(
        outcome.response,
        UciResponse::SessionSetAppConfig { status: StatusCode::UciStatusOk }
    );
    let outcome = p
        .command(handle, &UciCommand::SessionStart { session_id })
        .expect("device must exist");
    assert_eq!(outcome.response, UciResponse::SessionStart { status: StatusCode::UciStatusOk });
}

#[test]
fn connect_assigns_handles_and_announces() {
    let mut p = Pica::new();
    let (h0, event) = p.connect().expect("an empty world accepts a device");
    assert_eq!(h0, 0);
    assert_eq!(
        event,
        PicaEvent::DeviceAdded {
            category: Category::Uci,
            mac_address: MacAddress::Short(0),
            position: Position::new(0, 0, 0, 0, 0),
        }
    );
    let (h1, _) = p.connect().expect("a second device fits");
    assert_eq!(h1, 1);
    assert_eq!(p.devices.len(), 2);
}

#[test]
fn connect_and_query_device_info() {
    let mut p = Pica::new();
    let (h, _) = p.connect().unwrap();
    let outcome = p.command(h, &UciCommand::GetDeviceInfo).expect("device must exist");
    match outcome.response {
        UciResponse::GetDeviceInfo { status, .. } => assert_eq!(status, StatusCode::UciStatusOk),
        _ => panic!("the device information response is owed"),
    }
}

#[test]
fn disconnect_removes_device_and_silences_ranging() {
    let mut p = Pica::new();
    let (h, _) = p.connect().unwrap();
    start_session(&mut p, h, 7, 0x11, 0x22);
    let (event, timer_ops) = p.disconnect(h);
    assert_eq!(
        event,
        Some(PicaEvent::DeviceRemoved { category: Category::Uci, mac_address: MacAddress::Short(0) })
    );
    assert_eq!(timer_ops, vec![TimerOp::Stop { session_id: 7 }]);
    assert!(p.devices.is_empty());
    // A tick still in flight finds nothing and does nothing.
    assert!(p.ranging(h, 7).is_none());
}

#[test]
fn disconnect_of_unknown_handle_is_a_no_op() {
    let mut p = Pica::new();
    let (event, timer_ops) = p.disconnect(42);
    assert!(event.is_none());
    assert!(timer_ops.is_empty());
}

#[test]
fn session_lifecycle_through_the_core() {
    let mut p = Pica::new();
    let (h, _) = p.connect().unwrap();
    p.command(h, &UciCommand::SessionInit { session_id: 7, session_type: 0 }).unwrap();
    assert_eq!(p.devices[0].sessions[0].state, SessionState::SessionStateInit);
    p.command(h, &UciCommand::SessionSetAppConfig { session_id: 7, params: config(0x11, 0x22) })
        .unwrap();
    assert_eq!(p.devices[0].sessions[0].state, SessionState::SessionStateIdle);
    let outcome = p.command(h, &UciCommand::SessionStart { session_id: 7 }).unwrap();
    assert_eq!(p.devices[0].sessions[0].state, SessionState::SessionStateActive);
    assert_eq!(p.devices[0].state, DeviceState::DeviceStateActive);
    assert!(matches!(outcome.timer_ops[0], TimerOp::Start { session_id: 7, .. }));
}

#[test]
fn two_device_ranging_reports_the_peer() {
    let mut p = Pica::new();
    let (h1, _) = p.connect().unwrap();
    let (h2, _) = p.connect().unwrap();
    let (status, _) = p.set_position(MacAddress::Short(1), Position::new(100, 0, 0, 0, 0));
    assert_eq!(status, Ok(()));
    start_session(&mut p, h1, 7, 0x11, 0x22);
    start_session(&mut p, h2, 7, 0x22, 0x11);
    let ntf = p.ranging(h1, 7).expect("an active session with a peer reports");
    assert_eq!(ntf.session_token, 7);
    assert_eq!(ntf.sequence_number, 0);
    assert_eq!(ntf.two_way_ranging_measurements.len(), 1);
    let m = &ntf.two_way_ranging_measurements[0];
    assert_eq!(m.mac_address, 0x22);
    assert_eq!(m.distance, 100);
    assert_eq!(m.status, StatusCode::UciStatusOk);
}

#[test]
fn ranging_sequence_numbers_count_up_by_one() {
    let mut p = Pica::new();
    let (h1, _) = p.connect().unwrap();
    let (h2, _) = p.connect().unwrap();
    start_session(&mut p, h1, 7, 0x11, 0x22);
    start_session(&mut p, h2, 7, 0x22, 0x11);
    let n0 = p.ranging(h1, 7).unwrap();
    let n1 = p.ranging(h1, 7).unwrap();
    let n2 = p.ranging(h1, 7).unwrap();
    assert_eq!(n0.sequence_number, 0);
    assert_eq!(n1.sequence_number, 1);
    assert_eq!(n2.sequence_number, 2);
}

#[test]
fn anchor_ranging_reports_symmetric_distance() {
    let mut p = Pica::new();
    let (h1, _) = p.connect().unwrap();
    let (status, event) = p.create_anchor(MacAddress::Short(0xaa), Position::new(0, 100, 0, 0, 0));
    assert_eq!(status, Ok(()));
    assert_eq!(
        event,
        Some(PicaEvent::DeviceAdded {
            category: Category::Anchor,
            mac_address: MacAddress::Short(0xaa),
            position: Position::new(0, 100, 0, 0, 0),
        })
    );
    start_session(&mut p, h1, 7, 0x11, 0xaa);
    let ntf = p.ranging(h1, 7).expect("an anchor destination reports");
    assert_eq!(ntf.two_way_ranging_measurements.len(), 1);
    let m = &ntf.two_way_ranging_measurements[0];
    assert_eq!(m.mac_address, 0xaa);
    assert_eq!(m.distance, 100);
}

#[test]
fn ranging_without_a_peer_reports_nothing_reachable() {
    let mut p = Pica::new();
    let (h1, _) = p.connect().unwrap();
    start_session(&mut p, h1, 7, 0x11, 0x22);
    let ntf = p.ranging(h1, 7).expect("the session is active and reporting");
    assert_eq!(ntf.two_way_ranging_measurements.len(), 0);
}

#[test]
fn ranging_of_inactive_session_is_a_no_op() {
    let mut p = Pica::new();
    let (h, _) = p.connect().unwrap();
    p.command(h, &UciCommand::SessionInit { session_id: 7, session_type: 0 }).unwrap();
    assert!(p.ranging(h, 7).is_none());
}

#[test]
fn disabled_notification_policy_reports_nothing() {
    let mut p = Pica::new();
    let (h, _) = p.connect().unwrap();
    p.command(h, &UciCommand::SessionInit { session_id: 7, session_type: 0 }).unwrap();
    let mut params = config(0x11, 0x22);
    params.push(AppConfigTlv { tag: 0x0e, value: vec![0] });
    p.command(h, &UciCommand::SessionSetAppConfig { session_id: 7, params }).unwrap();
    p.command(h, &UciCommand::SessionStart { session_id: 7 }).unwrap();
    assert!(p.ranging(h, 7).is_none());
    assert_eq!(p.devices[0].sessions[0].sequence_number, 0, "nothing sent, nothing counted");
}

#[test]
fn in_band_stop_idles_the_peer_session() {
    let mut p = Pica::new();
    let (h1, _) = p.connect().unwrap();
    let (h2, _) = p.connect().unwrap();
    start_session(&mut p, h1, 7, 0x11, 0x22);
    start_session(&mut p, h2, 7, 0x22, 0x11);
    let (target, notifications, timer_ops) = p.stop_controlee_ranging(&MacAddress::Short(0x22), 7);
    assert_eq!(target, Some(h2));
    assert_eq!(timer_ops, vec![TimerOp::Stop { session_id: 7 }]);
    assert_eq!(notifications.len(), 1);
    match &notifications[0] {
        UciNotification::SessionStatus { session_id, session_state, reason_code } => {
            assert_eq!(*session_id, 7);
            assert_eq!(*session_state, SessionState::SessionStateIdle);
            assert_eq!(*reason_code, pica::ReasonCode::SessionStoppedDueToInbandSignal);
        }
        _ => panic!("the session status change is owed"),
    }
    assert_eq!(p.devices[1].sessions[0].state, SessionState::SessionStateIdle);
    assert_eq!(p.devices[1].state, DeviceState::DeviceStateReady);
    assert!(p.ranging(h2, 7).is_none(), "no further reports after the stop");
}

#[test]
fn in_band_stop_without_a_target_changes_nothing() {
    let mut p = Pica::new();
    let (_h, _) = p.connect().unwrap();
    let (target, notifications, timer_ops) = p.stop_controlee_ranging(&MacAddress::Short(0x99), 3);
    assert!(target.is_none());
    assert!(notifications.is_empty());
    assert!(timer_ops.is_empty());
}

#[test]
fn create_then_destroy_anchor_restores_the_registry() {
    let mut p = Pica::new();
    p.connect().unwrap();
    p.create_anchor(MacAddress::Short(0x50), Position::new(1, 2, 3, 0, 0)).0.unwrap();
    let before = p.get_state();
    p.create_anchor(MacAddress::Short(0x60), Position::new(4, 5, 6, 0, 0)).0.unwrap();
    let (status, event) = p.destroy_anchor(MacAddress::Short(0x60));
    assert_eq!(status, Ok(()));
    assert_eq!(
        event,
        Some(PicaEvent::DeviceRemoved {
            category: Category::Anchor,
            mac_address: MacAddress::Short(0x60),
        })
    );
    assert_eq!(p.get_state(), before);
}

#[test]
fn anchor_address_conflicts_are_refused() {
    let mut p = Pica::new();
    p.connect().unwrap();
    assert_eq!(
        p.create_anchor(MacAddress::Short(0), Position::new(0, 0, 0, 0, 0)).0,
        Err(PicaCommandError::DeviceAlreadyExists(MacAddress::Short(0))),
        "the connected device holds this address"
    );
    p.create_anchor(MacAddress::Short(0x50), Position::new(0, 0, 0, 0, 0)).0.unwrap();
    assert_eq!(
        p.create_anchor(MacAddress::Short(0x50), Position::new(9, 9, 9, 0, 0)).0,
        Err(PicaCommandError::DeviceAlreadyExists(MacAddress::Short(0x50)))
    );
    assert_eq!(
        p.destroy_anchor(MacAddress::Short(0x99)).0,
        Err(PicaCommandError::DeviceNotFound(MacAddress::Short(0x99)))
    );
}

#[test]
fn set_position_twice_is_idempotent_and_reports_once_each() {
    let mut p = Pica::new();
    p.connect().unwrap();
    p.create_anchor(MacAddress::Short(0x50), Position::new(1, 1, 1, 0, 0)).0.unwrap();
    let target = Position::new(10, 20, 30, 0, 0);
    let (s1, events1) = p.set_position(MacAddress::Short(0x50), target);
    assert_eq!(s1, Ok(()));
    let snapshot = p.get_state();
    let (s2, events2) = p.set_position(MacAddress::Short(0x50), target);
    assert_eq!(s2, Ok(()));
    assert_eq!(p.get_state(), snapshot, "the second move changes no stored state");
    let count = |events: &Vec<PicaEvent>| {
        events.iter().filter(|e| matches!(e, PicaEvent::DeviceUpdated { .. })).count()
    };
    assert_eq!(count(&events1), 1);
    assert_eq!(count(&events2), 1);
    assert_eq!(events1, events2);
}

#[test]
fn set_position_of_unknown_address_fails() {
    let mut p = Pica::new();
    assert_eq!(
        p.set_position(MacAddress::Short(0x77), Position::new(0, 0, 0, 0, 0)).0,
        Err(PicaCommandError::DeviceNotFound(MacAddress::Short(0x77)))
    );
}

#[test]
fn neighbor_updates_come_in_symmetric_pairs() {
    let mut p = Pica::new();
    p.connect().unwrap();
    p.create_anchor(MacAddress::Short(0x50), Position::new(0, 0, 0, 0, 0)).0.unwrap();
    let (_, events) = p.set_position(MacAddress::Short(0x50), Position::new(100, 0, 0, 0, 0));
    let pairs: Vec<&PicaEvent> = events
        .iter()
        .filter(|e| matches!(e, PicaEvent::NeighborUpdated { .. }))
        .collect();
    assert_eq!(pairs.len(), 2, "one pair toward the single neighbor");
    match (pairs[0], pairs[1]) {
        (
            PicaEvent::NeighborUpdated { distance: d1, .. },
            PicaEvent::NeighborUpdated { distance: d2, .. },
        ) => {
            assert_eq!(*d1, 100);
            assert_eq!(*d1, *d2, "distance is symmetric");
        }
        _ => unreachable!(),
    }
}

#[test]
fn get_state_lists_anchors_then_devices() {
    let mut p = Pica::new();
    p.connect().unwrap();
    p.create_anchor(MacAddress::Short(0x50), Position::new(1, 2, 3, 0, 0)).0.unwrap();
    let state = p.get_state();
    assert_eq!(state.len(), 2);
    assert!(matches!(state[0].0, Category::Anchor));
    assert_eq!(state[0].1, MacAddress::Short(0x50));
    assert!(matches!(state[1].0, Category::Uci));
    assert_eq!(state[1].1, MacAddress::Short(0));
}

#[test]
fn init_uci_device_sets_the_position() {
    let mut p = Pica::new();
    p.connect().unwrap();
    let status = p.init_uci_device(MacAddress::Short(0), Position::new(5, 6, 7, 0, 0));
    assert_eq!(status, Ok(()));
    assert_eq!(p.devices[0].position, Position::new(5, 6, 7, 0, 0));
    let status = p.init_uci_device(MacAddress::Short(0x99), Position::new(0, 0, 0, 0, 0));
    assert_eq!(status, Err(PicaCommandError::DeviceNotFound(MacAddress::Short(0x99))));
}

#[test]
fn data_packets_are_credited() {
    let mut p = Pica::new();
    let (h, _) = p.connect().unwrap();
    let data = pica::DataPacket {
        session_id: 7,
        destination: MacAddress::Extended(2),
        payload: vec![1, 2, 3],
    };
    match p.uci_data(h, &data) {
        Some(UciNotification::DataCredit { session_id, credit_availability }) => {
            assert_eq!(session_id, 7);
            assert_eq!(credit_availability, 1);
        }
        _ => panic!("a data packet is acknowledged with a credit"),
    }
    assert!(p.uci_data(42, &data).is_none());
}

#[test]
fn command_display_names() {
    assert_eq!(pica::PicaCommand::GetState.display_name(), "GetState");
    assert_eq!(pica::PicaCommand::Disconnect(3).display_name(), "Disconnect");
    assert_eq!(pica::PicaCommand::Ranging(0, 7).display_name(), "Ranging");
}
