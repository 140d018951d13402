use pica::{
    AppConfigTlv, Device, DeviceState, MacAddress, Position, SessionState, StatusCode, TimerOp,
    UciCommand, UciResponse, MAX_SESSION,
};

fn fresh_device() -> Device {
    Device::new(0, MacAddress::Short(0), Position::default_pose())
}

fn minimal_config(own: u16, dst: u16) -> Vec<AppConfigTlv> {
    vec![
        AppConfigTlv { tag: 0x06, value: vec![(own & 0xff) as u8, (own >> 8) as u8] },
        AppConfigTlv { tag: 0x07, value: vec![(dst & 0xff) as u8, (dst >> 8) as u8] },
    ]
}

#[test]
fn session_lifecycle_init_idle_active() {
    let mut d = fresh_device();
    let outcome = d.command(&UciCommand::SessionInit { session_id: 7, session_type: 0 });
    assert_eq!(outcome.response, UciResponse::SessionInit { status: StatusCode::UciStatusOk });
    assert_eq!(d.sessions[0].state, SessionState::SessionStateInit);
    assert_eq!(d.sessions[0].sequence_number, 0);

    let outcome = d.command(&UciCommand::SessionSetAppConfig {
        session_id: 7,
        params: minimal_config(0x11, 0x22),
    });
    assert_eq!(
        outcome.response,
        UciResponse::SessionSetAppConfig { status: StatusCode::UciStatusOk }
    );
    assert_eq!(d.sessions[0].state, SessionState::SessionStateIdle);
    assert_eq!(d.sessions[0].app_config.device_mac_address, Some(MacAddress::Short(0x11)));
    assert_eq!(d.sessions[0].app_config.dst_mac_addresses, vec![MacAddress::Short(0x22)]);

    let outcome = d.command(&UciCommand::SessionStart { session_id: 7 });
    assert_eq!(outcome.response, UciResponse::SessionStart { status: StatusCode::UciStatusOk });
    assert_eq!(d.sessions[0].state, SessionState::SessionStateActive);
    assert!(d.sessions[0].ranging_task);
    assert_eq!(d.state, DeviceState::DeviceStateActive);
    assert_eq!(d.n_active_sessions, 1);
    assert_eq!(
        outcome.timer_ops,
        vec![TimerOp::Start { session_id: 7, interval_ms: d.sessions[0].app_config.ranging_interval_ms }]
    );
}

#[test]
fn session_stop_returns_device_to_ready() {
    let mut d = fresh_device();
    d.command(&UciCommand::SessionInit { session_id: 7, session_type: 0 });
    d.command(&UciCommand::SessionSetAppConfig { session_id: 7, params: minimal_config(1, 2) });
    d.command(&UciCommand::SessionStart { session_id: 7 });
    let outcome = d.command(&UciCommand::SessionStop { session_id: 7 });
    assert_eq!(outcome.response, UciResponse::SessionStop { status: StatusCode::UciStatusOk });
    assert_eq!(d.sessions[0].state, SessionState::SessionStateIdle);
    assert!(!d.sessions[0].ranging_task);
    assert_eq!(d.state, DeviceState::DeviceStateReady);
    assert_eq!(d.n_active_sessions, 0);
    assert_eq!(outcome.timer_ops, vec![TimerOp::Stop { session_id: 7 }]);
}

#[test]
fn duplicate_session_id_is_refused() {
    let mut d = fresh_device();
    d.command(&UciCommand::SessionInit { session_id: 7, session_type: 0 });
    let outcome = d.command(&UciCommand::SessionInit { session_id: 7, session_type: 0 });
    assert_eq!(
        outcome.response,
        UciResponse::SessionInit { status: StatusCode::UciStatusSessionDuplicate }
    );
    assert_eq!(d.sessions.len(), 1);
}

#[test]
fn session_table_is_bounded() {
    let mut d = fresh_device();
    for id in 0..MAX_SESSION as u32 {
        let outcome = d.command(&UciCommand::SessionInit { session_id: id, session_type: 0 });
        assert_eq!(outcome.response, UciResponse::SessionInit { status: StatusCode::UciStatusOk });
    }
    let outcome = d.command(&UciCommand::SessionInit { session_id: 9999, session_type: 0 });
    assert_eq!(
        outcome.response,
        UciResponse::SessionInit { status: StatusCode::UciStatusMaxSessionsExceeded }
    );
}

#[test]
fn unknown_session_errors() {
    let mut d = fresh_device();
    let outcome = d.command(&UciCommand::SessionDeinit { session_id: 5 });
    assert_eq!(
        outcome.response,
        UciResponse::SessionDeinit { status: StatusCode::UciStatusSessionNotExist }
    );
    let outcome = d.command(&UciCommand::SessionStart { session_id: 5 });
    assert_eq!(
        outcome.response,
        UciResponse::SessionStart { status: StatusCode::UciStatusSessionNotExist }
    );
    let outcome = d.command(&UciCommand::SessionStop { session_id: 5 });
    assert_eq!(
        outcome.response,
        UciResponse::SessionStop { status: StatusCode::UciStatusSessionNotExist }
    );
}

#[test]
fn start_before_configuration_is_refused() {
    let mut d = fresh_device();
    d.command(&UciCommand::SessionInit { session_id: 7, session_type: 0 });
    let outcome = d.command(&UciCommand::SessionStart { session_id: 7 });
    assert_eq!(
        outcome.response,
        UciResponse::SessionStart { status: StatusCode::UciStatusSessionNotConfigured }
    );
    assert_eq!(d.sessions[0].state, SessionState::SessionStateInit);
}

#[test]
fn stop_of_inactive_session_is_rejected() {
    let mut d = fresh_device();
    d.command(&UciCommand::SessionInit { session_id: 7, session_type: 0 });
    let outcome = d.command(&UciCommand::SessionStop { session_id: 7 });
    assert_eq!(
        outcome.response,
        UciResponse::SessionStop { status: StatusCode::UciStatusRejected }
    );
}

#[test]
fn bad_configuration_entry_changes_nothing() {
    let mut d = fresh_device();
    d.command(&UciCommand::SessionInit { session_id: 7, session_type: 0 });
    let params = vec![AppConfigTlv { tag: 0x7f, value: vec![1] }];
    let outcome = d.command(&UciCommand::SessionSetAppConfig { session_id: 7, params });
    assert_eq!(
        outcome.response,
        UciResponse::SessionSetAppConfig { status: StatusCode::UciStatusInvalidParam }
    );
    assert_eq!(d.sessions[0].state, SessionState::SessionStateInit);
    assert_eq!(d.sessions[0].app_config.device_mac_address, None);
}

#[test]
fn session_deinit_removes_and_cancels() {
    let mut d = fresh_device();
    d.command(&UciCommand::SessionInit { session_id: 7, session_type: 0 });
    d.command(&UciCommand::SessionSetAppConfig { session_id: 7, params: minimal_config(1, 2) });
    d.command(&UciCommand::SessionStart { session_id: 7 });
    let outcome = d.command(&UciCommand::SessionDeinit { session_id: 7 });
    assert_eq!(outcome.response, UciResponse::SessionDeinit { status: StatusCode::UciStatusOk });
    assert_eq!(d.sessions.len(), 0);
    assert_eq!(d.n_active_sessions, 0);
    assert_eq!(d.state, DeviceState::DeviceStateReady);
    assert_eq!(outcome.timer_ops, vec![TimerOp::Stop { session_id: 7 }]);
}

#[test]
fn device_reset_clears_everything() {
    let mut d = fresh_device();
    d.command(&UciCommand::SessionInit { session_id: 1, session_type: 0 });
    d.command(&UciCommand::SessionSetAppConfig { session_id: 1, params: minimal_config(1, 2) });
    d.command(&UciCommand::SessionStart { session_id: 1 });
    d.command(&UciCommand::SessionInit { session_id: 2, session_type: 0 });
    let outcome = d.command(&UciCommand::DeviceReset);
    assert_eq!(outcome.response, UciResponse::DeviceReset { status: StatusCode::UciStatusOk });
    assert_eq!(d.sessions.len(), 0);
    assert_eq!(d.state, DeviceState::DeviceStateReady);
    assert_eq!(outcome.timer_ops, vec![TimerOp::Stop { session_id: 1 }]);
}

#[test]
fn device_info_reports_versions() {
    let mut d = fresh_device();
    let outcome = d.command(&UciCommand::GetDeviceInfo);
    match outcome.response {
        UciResponse::GetDeviceInfo { status, uci_version, .. } => {
            assert_eq!(status, StatusCode::UciStatusOk);
            assert_eq!(uci_version, pica::UCI_VERSION);
        }
        _ => panic!("the response must carry the device information"),
    }
}

#[test]
fn device_state_mirrors_active_sessions() {
    let mut d = fresh_device();
    for id in [1u32, 2] {
        d.command(&UciCommand::SessionInit { session_id: id, session_type: 0 });
        d.command(&UciCommand::SessionSetAppConfig { session_id: id, params: minimal_config(1, 2) });
        d.command(&UciCommand::SessionStart { session_id: id });
    }
    assert_eq!(d.n_active_sessions, 2);
    assert_eq!(d.state, DeviceState::DeviceStateActive);
    d.command(&UciCommand::SessionStop { session_id: 1 });
    assert_eq!(d.n_active_sessions, 1);
    assert_eq!(d.state, DeviceState::DeviceStateActive, "one session still ranges");
    d.command(&UciCommand::SessionStop { session_id: 2 });
    assert_eq!(d.n_active_sessions, 0);
    assert_eq!(d.state, DeviceState::DeviceStateReady);
}
