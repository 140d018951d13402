//! The control-plane vocabulary: message types, group and status codes,
//! session and device states, typed commands, responses and notifications.
//!
//! Only the packet fields the emulator acts on are modeled; byte layouts
//! live in the codec module.

use crate::mac_address::MacAddress;
use vstd::prelude::*;

verus! {

/// Message type carried in the top three bits of the first header byte.
#[derive(Clone, Copy, PartialEq, Eq, Structural, Debug)]
pub enum MessageType {
    Data,
    Command,
    Response,
    Notification,
    ReservedForTesting1,
    ReservedForTesting2,
}

/// Message type decoded from its three-bit wire value; values without a
/// meaning fall back to `Command`, which lets the parse-error policy
/// answer them with an error response.
pub open spec fn spec_message_type_of_bits(bits: u8) -> MessageType {
    if bits == 0 {
        MessageType::Data
    } else if bits == 2 {
        MessageType::Response
    } else if bits == 3 {
        MessageType::Notification
    } else if bits == 4 {
        MessageType::ReservedForTesting1
    } else if bits == 5 {
        MessageType::ReservedForTesting2
    } else {
        MessageType::Command
    }
}

/// Packet Boundary Flag: whether a segment is the last of its packet.
#[derive(Clone, Copy, PartialEq, Eq, Structural, Debug)]
pub enum PacketBoundaryFlag {
    Complete,
    NotComplete,
}

/// Group id carried in the low four bits of a control header byte.
#[derive(Clone, Copy, PartialEq, Eq, Structural, Debug)]
pub enum GroupId {
    Core,
    SessionConfig,
    SessionControl,
    DataControl,
    VendorReserved9,
    VendorReservedA,
    VendorReservedB,
    VendorAndroid,
    Test,
    VendorReservedE,
    VendorReservedF,
}

/// The group id a four-bit wire value names, when it names one.
pub open spec fn spec_group_id_of(bits: u8) -> Option<GroupId> {
    if bits == 0x0 {
        Some(GroupId::Core)
    } else if bits == 0x1 {
        Some(GroupId::SessionConfig)
    } else if bits == 0x2 {
        Some(GroupId::SessionControl)
    } else if bits == 0x3 {
        Some(GroupId::DataControl)
    } else if bits == 0x9 {
        Some(GroupId::VendorReserved9)
    } else if bits == 0xa {
        Some(GroupId::VendorReservedA)
    } else if bits == 0xb {
        Some(GroupId::VendorReservedB)
    } else if bits == 0xc {
        Some(GroupId::VendorAndroid)
    } else if bits == 0xd {
        Some(GroupId::Test)
    } else if bits == 0xe {
        Some(GroupId::VendorReservedE)
    } else if bits == 0xf {
        Some(GroupId::VendorReservedF)
    } else {
        None
    }
}

/// The group id a four-bit wire value names, when it names one.
pub fn group_id_of(bits: u8) -> (r: Option<GroupId>)
    ensures
        r == spec_group_id_of(bits),
{
    if bits == 0x0 {
        Some(GroupId::Core)
    } else if bits == 0x1 {
        Some(GroupId::SessionConfig)
    } else if bits == 0x2 {
        Some(GroupId::SessionControl)
    } else if bits == 0x3 {
        Some(GroupId::DataControl)
    } else if bits == 0x9 {
        Some(GroupId::VendorReserved9)
    } else if bits == 0xa {
        Some(GroupId::VendorReservedA)
    } else if bits == 0xb {
        Some(GroupId::VendorReservedB)
    } else if bits == 0xc {
        Some(GroupId::VendorAndroid)
    } else if bits == 0xd {
        Some(GroupId::Test)
    } else if bits == 0xe {
        Some(GroupId::VendorReservedE)
    } else if bits == 0xf {
        Some(GroupId::VendorReservedF)
    } else {
        None
    }
}

/// Status codes reported in responses.
#[derive(Clone, Copy, PartialEq, Eq, Structural, Debug)]
pub enum StatusCode {
    UciStatusOk,
    UciStatusRejected,
    UciStatusFailed,
    UciStatusSyntaxError,
    UciStatusInvalidParam,
    UciStatusUnknownGid,
    UciStatusUnknownOid,
    UciStatusSessionNotExist,
    UciStatusSessionDuplicate,
    UciStatusSessionActive,
    UciStatusMaxSessionsExceeded,
    UciStatusSessionNotConfigured,
}

/// Wire value of a status code.
pub open spec fn spec_status_value(s: StatusCode) -> u8 {
    match s {
        StatusCode::UciStatusOk => 0x00,
        StatusCode::UciStatusRejected => 0x01,
        StatusCode::UciStatusFailed => 0x02,
        StatusCode::UciStatusSyntaxError => 0x03,
        StatusCode::UciStatusInvalidParam => 0x04,
        StatusCode::UciStatusUnknownGid => 0x07,
        StatusCode::UciStatusUnknownOid => 0x08,
        StatusCode::UciStatusSessionNotExist => 0x11,
        StatusCode::UciStatusSessionDuplicate => 0x12,
        StatusCode::UciStatusSessionActive => 0x13,
        StatusCode::UciStatusMaxSessionsExceeded => 0x14,
        StatusCode::UciStatusSessionNotConfigured => 0x15,
    }
}

/// Wire value of a status code.
pub fn status_value(s: StatusCode) -> (r: u8)
    ensures
        r == spec_status_value(s),
{
    match s {
        StatusCode::UciStatusOk => 0x00,
        StatusCode::UciStatusRejected => 0x01,
        StatusCode::UciStatusFailed => 0x02,
        StatusCode::UciStatusSyntaxError => 0x03,
        StatusCode::UciStatusInvalidParam => 0x04,
        StatusCode::UciStatusUnknownGid => 0x07,
        StatusCode::UciStatusUnknownOid => 0x08,
        StatusCode::UciStatusSessionNotExist => 0x11,
        StatusCode::UciStatusSessionDuplicate => 0x12,
        StatusCode::UciStatusSessionActive => 0x13,
        StatusCode::UciStatusMaxSessionsExceeded => 0x14,
        StatusCode::UciStatusSessionNotConfigured => 0x15,
    }
}

/// Lifecycle state of a ranging session.
#[derive(Clone, Copy, PartialEq, Eq, Structural, Debug)]
pub enum SessionState {
    SessionStateInit,
    SessionStateDeinit,
    SessionStateActive,
    SessionStateIdle,
}

/// Wire value of a session state.
pub open spec fn spec_session_state_value(s: SessionState) -> u8 {
    match s {
        SessionState::SessionStateInit => 0x00,
        SessionState::SessionStateDeinit => 0x01,
        SessionState::SessionStateActive => 0x02,
        SessionState::SessionStateIdle => 0x03,
    }
}

/// Wire value of a session state.
pub fn session_state_value(s: SessionState) -> (r: u8)
    ensures
        r == spec_session_state_value(s),
{
    match s {
        SessionState::SessionStateInit => 0x00,
        SessionState::SessionStateDeinit => 0x01,
        SessionState::SessionStateActive => 0x02,
        SessionState::SessionStateIdle => 0x03,
    }
}

/// State of a device's controller.
#[derive(Clone, Copy, PartialEq, Eq, Structural, Debug)]
pub enum DeviceState {
    DeviceStateReady,
    DeviceStateActive,
}

/// Why a session changed state.
#[derive(Clone, Copy, PartialEq, Eq, Structural, Debug)]
pub enum ReasonCode {
    StateChangeWithSessionManagementCommands,
    SessionStoppedDueToInbandSignal,
}

/// Wire value of a reason code.
pub open spec fn spec_reason_code_value(r: ReasonCode) -> u8 {
    match r {
        ReasonCode::StateChangeWithSessionManagementCommands => 0x00,
        ReasonCode::SessionStoppedDueToInbandSignal => 0x05,
    }
}

/// Wire value of a reason code.
pub fn reason_code_value(rc: ReasonCode) -> (r: u8)
    ensures
        r == spec_reason_code_value(rc),
{
    match rc {
        ReasonCode::StateChangeWithSessionManagementCommands => 0x00,
        ReasonCode::SessionStoppedDueToInbandSignal => 0x05,
    }
}

/// Whether ranging measurements are reported to the host.
#[derive(Clone, Copy, PartialEq, Eq, Structural, Debug)]
pub enum RangeDataNtfConfig {
    Disable,
    Enable,
}

/// Role a device plays in a session.
#[derive(Clone, Copy, PartialEq, Eq, Structural, Debug)]
pub enum DeviceRole {
    Responder,
    Initiator,
}

/// One synthesized two-way measurement toward a short-address peer.
#[derive(Clone, Copy, PartialEq, Eq, Structural, Debug)]
pub struct ShortAddressTwoWayRangingMeasurement {
    pub mac_address: u16,
    pub status: StatusCode,
    pub nlos: u8,
    pub distance: u16,
    pub aoa_azimuth: u16,
    pub aoa_azimuth_fom: u8,
    pub aoa_elevation: u16,
    pub aoa_elevation_fom: u8,
    pub aoa_destination_azimuth: u16,
    pub aoa_destination_azimuth_fom: u8,
    pub aoa_destination_elevation: u16,
    pub aoa_destination_elevation_fom: u8,
    pub slot_index: u8,
    pub rssi: u8,
}

/// A measurement notification toward the host for one ranging round.
#[derive(Clone, Debug)]
pub struct ShortMacTwoWaySessionInfoNtf {
    pub sequence_number: u32,
    pub session_token: u32,
    pub rcr_indicator: u8,
    pub current_ranging_interval: u32,
    pub two_way_ranging_measurements: Vec<ShortAddressTwoWayRangingMeasurement>,
}

/// One key/value entry of a session configuration command.
#[derive(Clone, Debug)]
pub struct AppConfigTlv {
    pub tag: u8,
    pub value: Vec<u8>,
}

/// A host command, already narrowed to its typed form.
#[derive(Clone, Debug)]
pub enum UciCommand {
    DeviceReset,
    GetDeviceInfo,
    SessionInit { session_id: u32, session_type: u8 },
    SessionDeinit { session_id: u32 },
    SessionSetAppConfig { session_id: u32, params: Vec<AppConfigTlv> },
    SessionStart { session_id: u32 },
    SessionStop { session_id: u32 },
}

/// The response a command handler produces.
#[derive(Clone, Copy, PartialEq, Eq, Structural, Debug)]
pub enum UciResponse {
    DeviceReset { status: StatusCode },
    GetDeviceInfo {
        status: StatusCode,
        uci_version: u16,
        mac_version: u16,
        phy_version: u16,
        uci_test_version: u16,
    },
    SessionInit { status: StatusCode },
    SessionDeinit { status: StatusCode },
    SessionSetAppConfig { status: StatusCode },
    SessionStart { status: StatusCode },
    SessionStop { status: StatusCode },
}

impl UciResponse {
    /// The status the response reports, whatever its shape.
    pub open spec fn spec_status(self) -> StatusCode {
        match self {
            UciResponse::DeviceReset { status } => status,
            UciResponse::GetDeviceInfo { status, .. } => status,
            UciResponse::SessionInit { status } => status,
            UciResponse::SessionDeinit { status } => status,
            UciResponse::SessionSetAppConfig { status } => status,
            UciResponse::SessionStart { status } => status,
            UciResponse::SessionStop { status } => status,
        }
    }

    /// The status the response reports, whatever its shape.
    pub fn status(&self) -> (r: StatusCode)
        ensures
            r == self.spec_status(),
    {
        match self {
            UciResponse::DeviceReset { status } => *status,
            UciResponse::GetDeviceInfo { status, .. } => *status,
            UciResponse::SessionInit { status } => *status,
            UciResponse::SessionDeinit { status } => *status,
            UciResponse::SessionSetAppConfig { status } => *status,
            UciResponse::SessionStart { status } => *status,
            UciResponse::SessionStop { status } => *status,
        }
    }
}

/// A notification the core pushes to a host.
#[derive(Clone, Debug)]
pub enum UciNotification {
    SessionStatus {
        session_id: u32,
        session_state: SessionState,
        reason_code: ReasonCode,
    },
    SessionInfo(ShortMacTwoWaySessionInfoNtf),
    DataCredit { session_id: u32, credit_availability: u8 },
}

/// A data packet from the host, narrowed to the fields the emulator
/// acts on.
#[derive(Clone, Debug)]
pub struct DataPacket {
    pub session_id: u32,
    pub destination: MacAddress,
    pub payload: Vec<u8>,
}

} // verus!
