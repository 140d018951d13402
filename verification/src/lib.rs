//! A virtual controller emulator for a short-range ranging radio stack.
//!
//! The crate holds the control plane of the emulator: the framing
//! transport that segments and reassembles packets on a byte stream, the
//! codec for the control vocabulary, the per-device session state
//! machines, the measurement synthesis, and the control core that owns
//! the registry of devices and anchors. The embedding runtime feeds the
//! core connections, commands and timer ticks, and carries out the
//! events, packets and timer operations the core hands back.

mod codec;
mod device;
mod mac_address;
mod position;
mod session;
mod transport;
mod uci;

pub use codec::{
    encode_notification, encode_response, parse_control, parse_data, parse_tlvs, push_le16,
    push_le32, read_u32_le, spec_command_matches, spec_control_well_formed, spec_data_matches,
    spec_data_well_formed, spec_encode_notification, spec_encode_response, spec_le16, spec_le32,
    spec_measurement_bytes, spec_measurements_bytes, spec_parse_tlvs, spec_tlv_views,
    spec_tlvs_well_formed, spec_u32_le, spec_u64_le,
};
pub use device::{
    spec_active_count, CommandOutcome, Device, TimerOp, MAC_VERSION, MAX_DEVICE, MAX_SESSION,
    PHY_VERSION, UCI_TEST_VERSION, UCI_VERSION,
};
pub use mac_address::MacAddress;
pub use position::{
    capped_isqrt, isqrt_capped, lemma_distance_symmetric, spec_azimuth, spec_distance,
    spec_elevation, sq_dist, Position, MAX_DISTANCE,
};
pub use session::{
    spec_apply_tlvs, spec_default_app_config, spec_tlvs_valid, tlvs_valid, AppConfig,
    AppConfigModel, Session, DEFAULT_RANGING_INTERVAL,
};
pub use transport::{
    lemma_reassembled_keeps_last_header, lemma_segment_boundaries, lemma_segments_carry_payload,
    lemma_segments_well_formed, lemma_write_read_round_trip, packet_boundary_flag, payload_length,
    reassemble_packet, segment_packet, spec_control_run,
    spec_chunk_limit,
    spec_concat_chunks, spec_gid_bits, spec_is_data, spec_mt_bits, spec_payload_len, spec_pbf_not_complete,
    spec_reassembled, spec_segments, AssembleResult, PacketAssembler,
    MAX_CTRL_PACKET_PAYLOAD_SIZE, MAX_DATA_PACKET_PAYLOAD_SIZE,
};
pub use uci::{
    AppConfigTlv, DataPacket, DeviceRole, DeviceState, GroupId, MessageType,
    PacketBoundaryFlag, RangeDataNtfConfig, ReasonCode, SessionState,
    ShortAddressTwoWayRangingMeasurement, ShortMacTwoWaySessionInfoNtf, StatusCode, UciCommand,
    UciNotification, UciResponse,
};

use vstd::prelude::*;

verus! {

/// What an administrative command reports back.
pub type PicaCommandStatus = Result<(), PicaCommandError>;

/// The errors an administrative command can report.
#[derive(Clone, Copy, PartialEq, Eq, Structural, Debug)]
pub enum PicaCommandError {
    DeviceAlreadyExists(MacAddress),
    DeviceNotFound(MacAddress),
}

/// A command on the core's inbound channel. The embedding runtime owns
/// the connections and reply channels; here a command carries plain
/// values only.
#[derive(Clone, Debug)]
pub enum PicaCommand {
    /// Connect a new device.
    Connect,
    /// Disconnect the selected device.
    Disconnect(usize),
    /// Run one ranging round for the selected device and session.
    Ranging(usize, u32),
    /// In-band request to stop ranging at the peer holding this
    /// address and session.
    StopRanging(MacAddress, u32),
    /// A data packet received for the selected device.
    UciData(usize, DataPacket),
    /// A control command received for the selected device.
    UciCommand(usize, UciCommand),
    /// Assign address and position to a device.
    InitUciDevice(MacAddress, Position),
    /// Move a device or anchor.
    SetPosition(MacAddress, Position),
    /// Create an anchor.
    CreateAnchor(MacAddress, Position),
    /// Destroy an anchor.
    DestroyAnchor(MacAddress),
    /// Snapshot every participant.
    GetState,
}

impl PicaCommand {
    /// The name of the command, as logs print it.
    pub fn display_name(&self) -> (r: &'static str)
        ensures
            r@ == self.spec_display_name(),
    {
        match self {
            PicaCommand::Connect => "Connect",
            PicaCommand::Disconnect(_) => "Disconnect",
            PicaCommand::Ranging(_, _) => "Ranging",
            PicaCommand::StopRanging(_, _) => "StopRanging",
            PicaCommand::UciData(_, _) => "UciData",
            PicaCommand::UciCommand(_, _) => "UciCommand",
            PicaCommand::InitUciDevice(_, _) => "InitUciDevice",
            PicaCommand::SetPosition(_, _) => "SetPosition",
            PicaCommand::CreateAnchor(_, _) => "CreateAnchor",
            PicaCommand::DestroyAnchor(_) => "DestroyAnchor",
            PicaCommand::GetState => "GetState",
        }
    }

    /// The name of the command.
    pub open spec fn spec_display_name(self) -> Seq<char> {
        match self {
            PicaCommand::Connect => "Connect"@,
            PicaCommand::Disconnect(_) => "Disconnect"@,
            PicaCommand::Ranging(_, _) => "Ranging"@,
            PicaCommand::StopRanging(_, _) => "StopRanging"@,
            PicaCommand::UciData(_, _) => "UciData"@,
            PicaCommand::UciCommand(_, _) => "UciCommand"@,
            PicaCommand::InitUciDevice(_, _) => "InitUciDevice"@,
            PicaCommand::SetPosition(_, _) => "SetPosition"@,
            PicaCommand::CreateAnchor(_, _) => "CreateAnchor"@,
            PicaCommand::DestroyAnchor(_) => "DestroyAnchor"@,
            PicaCommand::GetState => "GetState"@,
        }
    }
}

/// A world event broadcast to observers.
#[derive(Clone, Copy, PartialEq, Eq, Structural, Debug)]
pub enum PicaEvent {
    DeviceAdded { category: Category, mac_address: MacAddress, position: Position },
    DeviceRemoved { category: Category, mac_address: MacAddress },
    DeviceUpdated { category: Category, mac_address: MacAddress, position: Position },
    NeighborUpdated {
        source_category: Category,
        source_mac_address: MacAddress,
        destination_category: Category,
        destination_mac_address: MacAddress,
        distance: u16,
        azimuth: i16,
        elevation: i8,
    },
}

/// What kind of participant an address names.
#[derive(Clone, Copy, PartialEq, Eq, Structural, Debug)]
pub enum Category {
    Uci,
    Anchor,
}

/// A passive participant: a position under an address, with no
/// sessions, no connection and no state machine.
#[derive(Clone, Copy, PartialEq, Eq, Structural, Debug)]
pub struct Anchor {
    pub mac_address: MacAddress,
    pub position: Position,
}

/// Extract the message type from the top three bits of a header byte.
/// Values without a meaning fall back to `Command` so that the
/// parse-error policy can answer them.
pub fn get_message_type(byte: u8) -> (r: MessageType)
    ensures
        r == uci::spec_message_type_of_bits(spec_mt_bits(byte)),
{
    let bits: u8 = (byte >> 5) & 0x7;
    if bits == 0 {
        MessageType::Data
    } else if bits == 2 {
        MessageType::Response
    } else if bits == 3 {
        MessageType::Notification
    } else if bits == 4 {
        MessageType::ReservedForTesting1
    } else if bits == 5 {
        MessageType::ReservedForTesting2
    } else {
        MessageType::Command
    }
}

/// A value in two's complement as the wire carries it in sixteen bits.
pub open spec fn spec_u16_of(v: int) -> u16
    recommends
        -0x8000 <= v < 0x8000,
{
    if v < 0 {
        (v + 0x10000) as u16
    } else {
        v as u16
    }
}

/// The measurement record one participant reports about another, given
/// the local and remote (distance, azimuth, elevation) readings.
pub open spec fn spec_measurement_record(
    mac16: u16,
    local: (u16, i16, i8),
    remote: (u16, i16, i8),
) -> ShortAddressTwoWayRangingMeasurement {
    ShortAddressTwoWayRangingMeasurement {
        mac_address: mac16,
        status: StatusCode::UciStatusOk,
        nlos: 0,
        distance: local.0,
        aoa_azimuth: spec_u16_of(local.1 as int),
        aoa_azimuth_fom: 100,
        aoa_elevation: spec_u16_of(local.2 as int),
        aoa_elevation_fom: 100,
        aoa_destination_azimuth: spec_u16_of(remote.1 as int),
        aoa_destination_azimuth_fom: 100,
        aoa_destination_elevation: spec_u16_of(remote.2 as int),
        aoa_destination_elevation_fom: 100,
        slot_index: 0,
        rssi: 255,
    }
}

/// Build the measurement record toward a peer from the local and remote
/// readings. Only short addresses can be reported; an extended address
/// yields nothing.
pub fn make_measurement(
    mac_address: &MacAddress,
    local: (u16, i16, i8),
    remote: (u16, i16, i8),
) -> (r: Option<ShortAddressTwoWayRangingMeasurement>)
    ensures
        match *mac_address {
            MacAddress::Short(v) => r == Some(spec_measurement_record(v, local, remote)),
            MacAddress::Extended(_) => r is None,
        },
{
    if let MacAddress::Short(address) = mac_address {
        let aoa_azimuth: u16 = if local.1 < 0 {
            (local.1 as i32 + 0x10000) as u16
        } else {
            local.1 as u16
        };
        let aoa_elevation: u16 = if local.2 < 0 {
            (local.2 as i32 + 0x10000) as u16
        } else {
            local.2 as u16
        };
        let aoa_destination_azimuth: u16 = if remote.1 < 0 {
            (remote.1 as i32 + 0x10000) as u16
        } else {
            remote.1 as u16
        };
        let aoa_destination_elevation: u16 = if remote.2 < 0 {
            (remote.2 as i32 + 0x10000) as u16
        } else {
            remote.2 as u16
        };
        Some(
            ShortAddressTwoWayRangingMeasurement {
                mac_address: *address,
                status: StatusCode::UciStatusOk,
                nlos: 0,
                distance: local.0,
                aoa_azimuth,
                aoa_azimuth_fom: 100,
                aoa_elevation,
                aoa_elevation_fom: 100,
                aoa_destination_azimuth,
                aoa_destination_azimuth_fom: 100,
                aoa_destination_elevation,
                aoa_destination_elevation_fom: 100,
                slot_index: 0,
                rssi: 255,
            },
        )
    } else {
        None
    }
}

/// Result of narrowing one inbound packet.
#[derive(Debug)]
pub enum UciParseResult {
    /// A command to route to the core.
    UciCommand(UciCommand),
    /// A data packet to route to the core.
    UciData(DataPacket),
    /// The error response owed directly to the host.
    ErrorResponse(Vec<u8>),
    /// Silently dropped.
    Skip,
}

/// The five-byte response the core crafts by hand when a command does
/// not parse: the response message type over the echoed group id, the
/// echoed opcode, a one-byte payload holding unknown-gid for a group
/// without a meaning and unknown-oid otherwise.
pub open spec fn spec_error_response(bytes: Seq<u8>) -> Seq<u8>
    recommends
        bytes.len() >= 2,
{
    seq![
        (0x40 + spec_gid_bits(bytes[0])) as u8,
        (bytes[1] & 0x3f) as u8,
        0u8,
        1u8,
        if uci::spec_group_id_of(spec_gid_bits(bytes[0])) is Some {
            uci::spec_status_value(StatusCode::UciStatusUnknownOid)
        } else {
            uci::spec_status_value(StatusCode::UciStatusUnknownGid)
        },
    ]
}

/// Narrow one complete inbound packet. A data packet that does not
/// parse is dropped; a command that does not parse is answered with the
/// hand-crafted error response; responses, notifications and reserved
/// message types that do not parse are dropped.
pub fn parse_uci_packet(bytes: &Vec<u8>) -> (r: UciParseResult)
    requires
        bytes@.len() >= 4,
    ensures
        spec_mt_bits(bytes@[0]) == 0 ==> if spec_data_well_formed(bytes@) {
            r matches UciParseResult::UciData(d) && spec_data_matches(bytes@, d)
        } else {
            r matches UciParseResult::Skip
        },
        spec_mt_bits(bytes@[0]) == 1 ==> if spec_control_well_formed(bytes@) {
            r matches UciParseResult::UciCommand(c) && spec_command_matches(bytes@, c)
        } else {
            r matches UciParseResult::ErrorResponse(e) && e@ == spec_error_response(bytes@)
        },
        2 <= spec_mt_bits(bytes@[0]) <= 5 ==> r matches UciParseResult::Skip,
        spec_mt_bits(bytes@[0]) >= 6 ==> (r matches UciParseResult::ErrorResponse(e) && e@
            == spec_error_response(bytes@)),
{
    let b0: u8 = bytes[0];
    let bits: u8 = (b0 >> 5) & 0x7;
    proof {
        assert(bits <= 7) by (bit_vector)
            requires
                bits == (b0 >> 5) & 0x7,
        ;
    }
    if bits == 0 {
        match parse_data(bytes) {
            Some(packet) => UciParseResult::UciData(packet),
            None => UciParseResult::Skip,
        }
    } else if bits >= 2 && bits <= 5 {
        UciParseResult::Skip
    } else if bits >= 6 {
        let group_id: u8 = b0 & 0xf;
        proof {
            assert(group_id < 16) by (bit_vector)
                requires
                    group_id == b0 & 0xf,
            ;
        }
        let opcode_id: u8 = bytes[1] & 0x3f;
        let status: StatusCode = match uci::group_id_of(group_id) {
            Some(_) => StatusCode::UciStatusUnknownOid,
            None => StatusCode::UciStatusUnknownGid,
        };
        let mut response: Vec<u8> = Vec::new();
        response.push(0x40 + group_id);
        response.push(opcode_id);
        response.push(0);
        response.push(1);
        response.push(uci::status_value(status));
        proof {
            assert(response@ =~= spec_error_response(bytes@));
        }
        UciParseResult::ErrorResponse(response)
    } else {
        match parse_control(bytes) {
            Some(cmd) => UciParseResult::UciCommand(cmd),
            None => {
                let group_id: u8 = b0 & 0xf;
                proof {
                    assert(group_id < 16) by (bit_vector)
                        requires
                            group_id == b0 & 0xf,
                    ;
                }
                let opcode_id: u8 = bytes[1] & 0x3f;
                let status: StatusCode = match uci::group_id_of(group_id) {
                    Some(_) => StatusCode::UciStatusUnknownOid,
                    None => StatusCode::UciStatusUnknownGid,
                };
                let mut response: Vec<u8> = Vec::new();
                response.push(0x40 + group_id);
                response.push(opcode_id);
                response.push(0);
                response.push(1);
                response.push(uci::status_value(status));
                proof {
                    assert(response@ =~= spec_error_response(bytes@));
                }
                UciParseResult::ErrorResponse(response)
            }
        }
    }
}

/// The two reports a participant and one of its neighbors exchange when
/// the participant moves: the bearing seen from the mover, then the
/// bearing seen from the neighbor.
pub open spec fn spec_neighbor_pair(
    cat: Category,
    mac: MacAddress,
    position: Position,
    ocat: Category,
    omac: MacAddress,
    opos: Position,
) -> Seq<PicaEvent> {
    seq![
        PicaEvent::NeighborUpdated {
            source_category: cat,
            source_mac_address: mac,
            destination_category: ocat,
            destination_mac_address: omac,
            distance: spec_distance(position, opos) as u16,
            azimuth: spec_azimuth(position, opos) as i16,
            elevation: spec_elevation(position, opos) as i8,
        },
        PicaEvent::NeighborUpdated {
            source_category: ocat,
            source_mac_address: omac,
            destination_category: cat,
            destination_mac_address: mac,
            distance: spec_distance(opos, position) as u16,
            azimuth: spec_azimuth(opos, position) as i16,
            elevation: spec_elevation(opos, position) as i8,
        },
    ]
}

/// The neighbor reports toward every device but the mover itself, in
/// table order.
pub open spec fn spec_device_neighbor_events(
    devs: Seq<Device>,
    cat: Category,
    mac: MacAddress,
    position: Position,
) -> Seq<PicaEvent>
    decreases devs.len(),
{
    if devs.len() == 0 {
        Seq::empty()
    } else {
        (if devs[0].mac_address != mac {
            spec_neighbor_pair(cat, mac, position, Category::Uci, devs[0].mac_address, devs[0].position)
        } else {
            Seq::<PicaEvent>::empty()
        }) + spec_device_neighbor_events(devs.skip(1), cat, mac, position)
    }
}

/// The neighbor reports toward every anchor but the mover itself, in
/// table order.
pub open spec fn spec_anchor_neighbor_events(
    anchors: Seq<Anchor>,
    cat: Category,
    mac: MacAddress,
    position: Position,
) -> Seq<PicaEvent>
    decreases anchors.len(),
{
    if anchors.len() == 0 {
        Seq::empty()
    } else {
        (if anchors[0].mac_address != mac {
            spec_neighbor_pair(
                cat,
                mac,
                position,
                Category::Anchor,
                anchors[0].mac_address,
                anchors[0].position,
            )
        } else {
            Seq::<PicaEvent>::empty()
        }) + spec_anchor_neighbor_events(anchors.skip(1), cat, mac, position)
    }
}

/// The control core: the single owner of the registry of devices and
/// anchors. The embedding runtime routes commands here one at a time
/// and carries out what each call hands back.
pub struct Pica {
    /// The connected devices, in connect order.
    pub devices: Vec<Device>,
    /// The standing anchors, in creation order.
    pub anchors: Vec<Anchor>,
    /// The next handle to assign.
    pub counter: usize,
}

impl Pica {
    /// The registry invariant: well-formed devices under unique handles
    /// below the counter, and no address shared by any two
    /// participants.
    pub open spec fn wf(self) -> bool {
        &&& forall|i: int| 0 <= i < self.devices@.len() ==> (#[trigger] self.devices@[i]).wf()
        &&& forall|i: int, j: int|
            0 <= i < j < self.devices@.len() ==> (#[trigger] self.devices@[i].handle) != (
            #[trigger] self.devices@[j].handle)
        &&& forall|i: int|
            0 <= i < self.devices@.len() ==> (#[trigger] self.devices@[i]).handle < self.counter
        &&& forall|i: int, j: int|
            0 <= i < j < self.devices@.len() ==> (#[trigger] self.devices@[i].mac_address) != (
            #[trigger] self.devices@[j].mac_address)
        &&& forall|i: int, j: int|
            0 <= i < j < self.anchors@.len() ==> (#[trigger] self.anchors@[i].mac_address) != (
            #[trigger] self.anchors@[j].mac_address)
        &&& forall|i: int, j: int|
            0 <= i < self.devices@.len() && 0 <= j < self.anchors@.len() ==> (
            #[trigger] self.devices@[i].mac_address) != (#[trigger] self.anchors@[j].mac_address)
    }

    /// Whether a device with this handle is registered.
    pub open spec fn spec_has_device(self, handle: usize) -> bool {
        exists|i: int| 0 <= i < self.devices@.len() && (#[trigger] self.devices@[i]).handle
            == handle
    }

    /// The index of the device with this handle.
    pub open spec fn spec_device_index(self, handle: usize) -> int {
        choose|i: int| 0 <= i < self.devices@.len() && (#[trigger] self.devices@[i]).handle
            == handle
    }

    /// The device with this handle.
    pub open spec fn spec_device(self, handle: usize) -> Device {
        self.devices@[self.spec_device_index(handle)]
    }

    /// Whether an anchor stands under this address.
    pub open spec fn spec_has_anchor(self, mac: MacAddress) -> bool {
        exists|i: int| 0 <= i < self.anchors@.len() && (#[trigger] self.anchors@[i]).mac_address
            == mac
    }

    /// The index of the anchor under this address.
    pub open spec fn spec_anchor_index(self, mac: MacAddress) -> int {
        choose|i: int| 0 <= i < self.anchors@.len() && (#[trigger] self.anchors@[i]).mac_address
            == mac
    }

    /// Whether a device answers under this address.
    pub open spec fn spec_has_device_mac(self, mac: MacAddress) -> bool {
        exists|i: int| 0 <= i < self.devices@.len() && (#[trigger] self.devices@[i]).mac_address
            == mac
    }

    /// The index of the device under this address.
    pub open spec fn spec_device_mac_index(self, mac: MacAddress) -> int {
        choose|i: int| 0 <= i < self.devices@.len() && (#[trigger] self.devices@[i]).mac_address
            == mac
    }

    /// Whether any participant holds this address.
    pub open spec fn spec_mac_taken(self, mac: MacAddress) -> bool {
        self.spec_has_device_mac(mac) || self.spec_has_anchor(mac)
    }

    /// An empty world.
    pub fn new() -> (r: Pica)
        ensures
            r.devices@.len() == 0,
            r.anchors@.len() == 0,
            r.counter == 0,
            r.wf(),
    {
        Pica { devices: Vec::new(), anchors: Vec::new(), counter: 0 }
    }

    /// Find the table index of the device with this handle.
    fn find_device(&self, handle: usize) -> (r: Option<usize>)
        requires
            self.wf(),
        ensures
            r is Some <==> self.spec_has_device(handle),
            r matches Some(i) ==> i as int == self.spec_device_index(handle) && i
                < self.devices@.len() && self.devices@[i as int].handle == handle,
    {
        let mut i: usize = 0;
        while i < self.devices.len()
            invariant
                self.wf(),
                i <= self.devices@.len(),
                forall|j: int| 0 <= j < i ==> (#[trigger] self.devices@[j]).handle != handle,
            decreases self.devices@.len() - i,
        {
            if self.devices[i].handle == handle {
                proof {
                    assert(self.spec_has_device(handle)) by {
                        assert(self.devices@[i as int].handle == handle);
                    }
                    let k = self.spec_device_index(handle);
                    if k != i as int {
                        assert(self.devices@[k].handle == handle);
                    }
                }
                return Some(i);
            }
            i += 1;
        }
        None
    }

    /// Find the table index of the anchor under this address.
    fn find_anchor(&self, mac: &MacAddress) -> (r: Option<usize>)
        requires
            self.wf(),
        ensures
            r is Some <==> self.spec_has_anchor(*mac),
            r matches Some(i) ==> i as int == self.spec_anchor_index(*mac) && i
                < self.anchors@.len() && self.anchors@[i as int].mac_address == *mac,
    {
        let mut i: usize = 0;
        while i < self.anchors.len()
            invariant
                self.wf(),
                i <= self.anchors@.len(),
                forall|j: int| 0 <= j < i ==> (#[trigger] self.anchors@[j]).mac_address != *mac,
            decreases self.anchors@.len() - i,
        {
            if self.anchors[i].mac_address == *mac {
                proof {
                    assert(self.spec_has_anchor(*mac)) by {
                        assert(self.anchors@[i as int].mac_address == *mac);
                    }
                    let k = self.spec_anchor_index(*mac);
                    if k != i as int {
                        assert(self.anchors@[k].mac_address == *mac);
                    }
                }
                return Some(i);
            }
            i += 1;
        }
        None
    }

    /// Find the table index of the device answering under this address.
    fn find_device_by_mac(&self, mac: &MacAddress) -> (r: Option<usize>)
        requires
            self.wf(),
        ensures
            r is Some <==> self.spec_has_device_mac(*mac),
            r matches Some(i) ==> i as int == self.spec_device_mac_index(*mac) && i
                < self.devices@.len() && self.devices@[i as int].mac_address == *mac,
    {
        let mut i: usize = 0;
        while i < self.devices.len()
            invariant
                self.wf(),
                i <= self.devices@.len(),
                forall|j: int| 0 <= j < i ==> (#[trigger] self.devices@[j]).mac_address != *mac,
            decreases self.devices@.len() - i,
        {
            if self.devices[i].mac_address == *mac {
                proof {
                    assert(self.spec_has_device_mac(*mac)) by {
                        assert(self.devices@[i as int].mac_address == *mac);
                    }
                    let k = self.spec_device_mac_index(*mac);
                    if k != i as int {
                        assert(self.devices@[k].mac_address == *mac);
                    }
                }
                return Some(i);
            }
            i += 1;
        }
        None
    }

    /// What kind of participant holds this address, when one does.
    /// Anchors take precedence, though no address is ever shared.
    pub fn get_category(&self, mac_address: &MacAddress) -> (r: Option<Category>)
        requires
            self.wf(),
        ensures
            r == if self.spec_has_anchor(*mac_address) {
                Some(Category::Anchor)
            } else if self.spec_has_device_mac(*mac_address) {
                Some(Category::Uci)
            } else {
                None::<Category>
            },
    {
        if self.find_anchor(mac_address).is_some() {
            Some(Category::Anchor)
        } else if self.find_device_by_mac(mac_address).is_some() {
            Some(Category::Uci)
        } else {
            None
        }
    }

    /// Register a newly connected device under the next handle, with
    /// the default address derived from it and the default pose, and
    /// announce it. A full table, an exhausted address space, or a
    /// default address already standing refuses the connection and
    /// changes nothing.
    pub fn connect(&mut self) -> (r: Option<(usize, PicaEvent)>)
        requires
            old(self).wf(),
        ensures
            final(self).wf(),
            r is Some <==> (old(self).devices@.len() < MAX_DEVICE && old(self).counter < 0x10000
                && !old(self).spec_mac_taken(MacAddress::Short(old(self).counter as u16))),
            r is None ==> *final(self) == *old(self),
            r matches Some((handle, event)) ==> {
                let mac = MacAddress::Short(old(self).counter as u16);
                &&& handle == old(self).counter
                &&& final(self).counter == old(self).counter + 1
                &&& final(self).anchors@ == old(self).anchors@
                &&& final(self).devices@.len() == old(self).devices@.len() + 1
                &&& final(self).devices@.take(old(self).devices@.len() as int) == old(self).devices@
                &&& final(self).devices@.last().handle == handle
                &&& final(self).devices@.last().mac_address == mac
                &&& final(self).devices@.last().position == (Position {
                    x: 0i16,
                    y: 0i16,
                    z: 0i16,
                    azimuth: 0i16,
                    elevation: 0i8,
                })
                &&& final(self).devices@.last().state == DeviceState::DeviceStateReady
                &&& final(self).devices@.last().sessions@.len() == 0
                &&& final(self).devices@.last().n_active_sessions == 0
                &&& event == (PicaEvent::DeviceAdded {
                    category: Category::Uci,
                    mac_address: mac,
                    position: Position { x: 0i16, y: 0i16, z: 0i16, azimuth: 0i16, elevation: 0i8 },
                })
            },
    {
        if self.devices.len() >= MAX_DEVICE {
            return None;
        }
        if self.counter >= 0x10000 {
            return None;
        }
        let mac: MacAddress = MacAddress::from_handle(self.counter);
        if self.find_device_by_mac(&mac).is_some() {
            return None;
        }
        if self.find_anchor(&mac).is_some() {
            return None;
        }
        let handle: usize = self.counter;
        self.counter = self.counter + 1;
        let device = Device::new(handle, mac, Position::default_pose());
        let position: Position = device.position;
        self.devices.push(device);
        proof {
            assert(self.devices@.take(old(self).devices@.len() as int) =~= old(self).devices@);
        }
        Some(
            (
                handle,
                PicaEvent::DeviceAdded { category: Category::Uci, mac_address: mac, position },
            ),
        )
    }

    /// Remove a disconnected device, cancel every timer it still
    /// holds, and announce the removal. An unknown handle changes
    /// nothing, and afterwards no device answers under it either way.
    pub fn disconnect(&mut self, device_handle: usize) -> (r: (Option<PicaEvent>, Vec<TimerOp>))
        requires
            old(self).wf(),
        ensures
            final(self).wf(),
            !final(self).spec_has_device(device_handle),
            final(self).anchors@ == old(self).anchors@,
            final(self).counter == old(self).counter,
            if old(self).spec_has_device(device_handle) {
                let k = old(self).spec_device_index(device_handle);
                &&& final(self).devices@ == old(self).devices@.remove(k)
                &&& r.0 == Some(
                    PicaEvent::DeviceRemoved {
                        category: Category::Uci,
                        mac_address: old(self).devices@[k].mac_address,
                    },
                )
                &&& r.1@ == Device::spec_stop_ops(old(self).devices@[k].sessions@)
            } else {
                &&& *final(self) == *old(self)
                &&& r.0 is None
                &&& r.1@.len() == 0
            },
    {
        match self.find_device(device_handle) {
            None => (None, Vec::new()),
            Some(k) => {
                let mut timer_ops: Vec<TimerOp> = Vec::new();
                {
                    let d = &self.devices[k];
                    let mut i: usize = 0;
                    while i < d.sessions.len()
                        invariant
                            i <= d.sessions@.len(),
                            timer_ops@ =~= Device::spec_stop_ops(d.sessions@.take(i as int)),
                        decreases d.sessions@.len() - i,
                    {
                        if d.sessions[i].state == SessionState::SessionStateActive {
                            let session_id: u32 = d.sessions[i].id;
                            timer_ops.push(TimerOp::Stop { session_id });
                        }
                        proof {
                            device::lemma_stop_ops_snoc(d.sessions@, i as int);
                        }
                        i += 1;
                    }
                    proof {
                        assert(d.sessions@.take(d.sessions@.len() as int) =~= d.sessions@);
                    }
                }
                let mac_address: MacAddress = self.devices[k].mac_address;
                let _removed: Device = self.devices.remove(k);
                proof {
                    assert(!self.spec_has_device(device_handle)) by {
                        if self.spec_has_device(device_handle) {
                            let j = choose|j: int|
                                0 <= j < self.devices@.len() && (#[trigger] self.devices@[j]).handle
                                    == device_handle;
                            if j < k as int {
                                assert(old(self).devices@[j].handle == device_handle);
                            } else {
                                assert(old(self).devices@[j + 1].handle == device_handle);
                            }
                        }
                    }
                }
                (
                    Some(
                        PicaEvent::DeviceRemoved { category: Category::Uci, mac_address },
                    ),
                    timer_ops,
                )
            }
        }
    }

    /// Route one host command to the device behind the handle and hand
    /// back what it produced. An unknown handle changes nothing.
    pub fn command(&mut self, device_handle: usize, cmd: &UciCommand) -> (r: Option<
        CommandOutcome,
    >)
        requires
            old(self).wf(),
        ensures
            final(self).wf(),
            final(self).anchors@ == old(self).anchors@,
            final(self).counter == old(self).counter,
            r is Some <==> old(self).spec_has_device(device_handle),
            r is None ==> *final(self) == *old(self),
            r matches Some(outcome) ==> {
                let k = old(self).spec_device_index(device_handle);
                &&& final(self).devices@ == old(self).devices@.update(k, final(self).devices@[k])
                &&& Device::spec_command_transition(
                    old(self).devices@[k],
                    final(self).devices@[k],
                    *cmd,
                    outcome,
                )
            },
    {
        match self.find_device(device_handle) {
            None => None,
            Some(k) => {
                let outcome: CommandOutcome;
                {
                    let d = &mut self.devices[k];
                    outcome = d.command(cmd);
                }
                proof {
                    let pre = old(self).devices@[k as int];
                    let post = self.devices@[k as int];
                    assert(Device::spec_same_identity(pre, post));
                    assert forall|i: int, j: int|
                        0 <= i < j < self.devices@.len() implies (
                    #[trigger] self.devices@[i].handle) != (
                    #[trigger] self.devices@[j].handle) by {
                        assert(old(self).devices@[i].handle != old(self).devices@[j].handle);
                    }
                    assert forall|i: int, j: int|
                        0 <= i < j < self.devices@.len() implies (
                    #[trigger] self.devices@[i].mac_address) != (
                    #[trigger] self.devices@[j].mac_address) by {
                        assert(
                            old(self).devices@[i].mac_address != old(self).devices@[j].mac_address
                        );
                    }
                    assert forall|i: int, j: int|
                        0 <= i < self.devices@.len() && 0 <= j < self.anchors@.len() implies (
                    #[trigger] self.devices@[i].mac_address) != (
                    #[trigger] self.anchors@[j].mac_address) by {
                        assert(
                            old(self).devices@[i].mac_address != old(self).anchors@[j].mac_address
                        );
                    }
                }
                Some(outcome)
            }
        }
    }

    /// Acknowledge a data packet for the device behind the handle. An
    /// unknown handle yields nothing.
    pub fn uci_data(&self, device_handle: usize, data: &DataPacket) -> (r: Option<UciNotification>)
        requires
            self.wf(),
        ensures
            r is Some <==> self.spec_has_device(device_handle),
            r matches Some(n) ==> n == (UciNotification::DataCredit {
                session_id: data.session_id,
                credit_availability: 1u8,
            }),
    {
        match self.find_device(device_handle) {
            None => None,
            Some(k) => Some(self.devices[k].data_message_snd(data)),
        }
    }

    /// Assign the given address and position to the device that already
    /// answers under that address. No device under it reports that it
    /// was not found.
    pub fn init_uci_device(&mut self, mac_address: MacAddress, position: Position) -> (r:
        PicaCommandStatus)
        requires
            old(self).wf(),
        ensures
            final(self).wf(),
            final(self).anchors@ == old(self).anchors@,
            final(self).counter == old(self).counter,
            if old(self).spec_has_device_mac(mac_address) {
                let k = old(self).spec_device_mac_index(mac_address);
                let pre = old(self).devices@[k];
                let post = final(self).devices@[k];
                &&& final(self).devices@ == old(self).devices@.update(k, post)
                &&& post.handle == pre.handle
                &&& post.mac_address == mac_address
                &&& post.position == position
                &&& post.state == pre.state
                &&& post.sessions == pre.sessions
                &&& post.n_active_sessions == pre.n_active_sessions
                &&& r == Ok::<(), PicaCommandError>(())
            } else {
                &&& *final(self) == *old(self)
                &&& r == Err::<(), PicaCommandError>(PicaCommandError::DeviceNotFound(mac_address))
            },
    {
        match self.find_device_by_mac(&mac_address) {
            None => Err(PicaCommandError::DeviceNotFound(mac_address)),
            Some(k) => {
                {
                    let d = &mut self.devices[k];
                    d.mac_address = mac_address;
                    d.position = position;
                }
                proof {
                    assert forall|i: int, j: int|
                        0 <= i < j < self.devices@.len() implies (
                    #[trigger] self.devices@[i].mac_address) != (
                    #[trigger] self.devices@[j].mac_address) by {
                        assert(
                            old(self).devices@[i].mac_address != old(self).devices@[j].mac_address
                        );
                    }
                    assert forall|i: int, j: int|
                        0 <= i < self.devices@.len() && 0 <= j < self.anchors@.len() implies (
                    #[trigger] self.devices@[i].mac_address) != (
                    #[trigger] self.anchors@[j].mac_address) by {
                        assert(
                            old(self).devices@[i].mac_address != old(self).anchors@[j].mac_address
                        );
                    }
                }
                Ok(())
            }
        }
    }

    /// Announce that a participant moved: its own update first, then
    /// the refreshed bearing between it and every other participant,
    /// devices before anchors, both directions each. An address nobody
    /// holds reports that it was not found.
    pub fn update_position(&self, mac_address: MacAddress, position: Position) -> (r: (
        PicaCommandStatus,
        Vec<PicaEvent>,
    ))
        requires
            self.wf(),
        ensures
            !self.spec_mac_taken(mac_address) ==> r.0 == Err::<(), PicaCommandError>(
                PicaCommandError::DeviceNotFound(mac_address),
            ) && r.1@.len() == 0,
            self.spec_mac_taken(mac_address) ==> {
                let cat = if self.spec_has_anchor(mac_address) {
                    Category::Anchor
                } else {
                    Category::Uci
                };
                &&& r.0 == Ok::<(), PicaCommandError>(())
                &&& r.1@ == seq![
                    PicaEvent::DeviceUpdated { category: cat, mac_address, position },
                ] + spec_device_neighbor_events(self.devices@, cat, mac_address, position)
                    + spec_anchor_neighbor_events(self.anchors@, cat, mac_address, position)
            },
    {
        let category: Category = match self.get_category(&mac_address) {
            Some(category) => category,
            None => {
                return (Err(PicaCommandError::DeviceNotFound(mac_address)), Vec::new());
            }
        };
        let mut events: Vec<PicaEvent> = Vec::new();
        events.push(PicaEvent::DeviceUpdated { category, mac_address, position });
        let ghost head: Seq<PicaEvent> = events@;
        let mut i: usize = 0;
        while i < self.devices.len()
            invariant
                i <= self.devices@.len(),
                head == seq![
                    PicaEvent::DeviceUpdated { category, mac_address, position },
                ],
                events@ =~= head + spec_device_neighbor_events(
                    self.devices@.take(i as int),
                    category,
                    mac_address,
                    position,
                ),
            decreases self.devices@.len() - i,
        {
            let omac: MacAddress = self.devices[i].mac_address;
            if omac != mac_address {
                let opos: Position = self.devices[i].position;
                let local: (u16, i16, i8) = position.compute_range_azimuth_elevation(&opos);
                let remote: (u16, i16, i8) = opos.compute_range_azimuth_elevation(&position);
                events.push(
                    PicaEvent::NeighborUpdated {
                        source_category: category,
                        source_mac_address: mac_address,
                        destination_category: Category::Uci,
                        destination_mac_address: omac,
                        distance: local.0,
                        azimuth: local.1,
                        elevation: local.2,
                    },
                );
                events.push(
                    PicaEvent::NeighborUpdated {
                        source_category: Category::Uci,
                        source_mac_address: omac,
                        destination_category: category,
                        destination_mac_address: mac_address,
                        distance: remote.0,
                        azimuth: remote.1,
                        elevation: remote.2,
                    },
                );
            }
            proof {
                lemma_device_neighbor_events_snoc(
                    self.devices@,
                    i as int,
                    category,
                    mac_address,
                    position,
                );
            }
            i += 1;
        }
        proof {
            assert(self.devices@.take(self.devices@.len() as int) =~= self.devices@);
        }
        let ghost mid: Seq<PicaEvent> = events@;
        let mut j: usize = 0;
        while j < self.anchors.len()
            invariant
                j <= self.anchors@.len(),
                mid == head + spec_device_neighbor_events(
                    self.devices@,
                    category,
                    mac_address,
                    position,
                ),
                head == seq![
                    PicaEvent::DeviceUpdated { category, mac_address, position },
                ],
                events@ =~= mid + spec_anchor_neighbor_events(
                    self.anchors@.take(j as int),
                    category,
                    mac_address,
                    position,
                ),
            decreases self.anchors@.len() - j,
        {
            let omac: MacAddress = self.anchors[j].mac_address;
            if omac != mac_address {
                let opos: Position = self.anchors[j].position;
                let local: (u16, i16, i8) = position.compute_range_azimuth_elevation(&opos);
                let remote: (u16, i16, i8) = opos.compute_range_azimuth_elevation(&position);
                events.push(
                    PicaEvent::NeighborUpdated {
                        source_category: category,
                        source_mac_address: mac_address,
                        destination_category: Category::Anchor,
                        destination_mac_address: omac,
                        distance: local.0,
                        azimuth: local.1,
                        elevation: local.2,
                    },
                );
                events.push(
                    PicaEvent::NeighborUpdated {
                        source_category: Category::Anchor,
                        source_mac_address: omac,
                        destination_category: category,
                        destination_mac_address: mac_address,
                        distance: remote.0,
                        azimuth: remote.1,
                        elevation: remote.2,
                    },
                );
            }
            proof {
                lemma_anchor_neighbor_events_snoc(
                    self.anchors@,
                    j as int,
                    category,
                    mac_address,
                    position,
                );
            }
            j += 1;
        }
        proof {
            assert(self.anchors@.take(self.anchors@.len() as int) =~= self.anchors@);
        }
        (Ok(()), events)
    }

    /// Move a device or an anchor and announce the change. An address
    /// nobody holds reports that it was not found and changes nothing.
    pub fn set_position(&mut self, mac_address: MacAddress, position: Position) -> (r: (
        PicaCommandStatus,
        Vec<PicaEvent>,
    ))
        requires
            old(self).wf(),
        ensures
            final(self).wf(),
            final(self).counter == old(self).counter,
            if old(self).spec_has_device_mac(mac_address) {
                let k = old(self).spec_device_mac_index(mac_address);
                let pre = old(self).devices@[k];
                let post = final(self).devices@[k];
                &&& final(self).anchors@ == old(self).anchors@
                &&& final(self).devices@ == old(self).devices@.update(k, post)
                &&& post.handle == pre.handle
                &&& post.mac_address == pre.mac_address
                &&& post.position == position
                &&& post.state == pre.state
                &&& post.sessions == pre.sessions
                &&& post.n_active_sessions == pre.n_active_sessions
                &&& r.0 == Ok::<(), PicaCommandError>(())
                &&& r.1@ == seq![
                    PicaEvent::DeviceUpdated { category: Category::Uci, mac_address, position },
                ] + spec_device_neighbor_events(
                    final(self).devices@,
                    Category::Uci,
                    mac_address,
                    position,
                ) + spec_anchor_neighbor_events(
                    final(self).anchors@,
                    Category::Uci,
                    mac_address,
                    position,
                )
            } else if old(self).spec_has_anchor(mac_address) {
                let k = old(self).spec_anchor_index(mac_address);
                &&& final(self).devices@ == old(self).devices@
                &&& final(self).anchors@ == old(self).anchors@.update(
                    k,
                    Anchor { mac_address, position },
                )
                &&& r.0 == Ok::<(), PicaCommandError>(())
                &&& r.1@ == seq![
                    PicaEvent::DeviceUpdated { category: Category::Anchor, mac_address, position },
                ] + spec_device_neighbor_events(
                    final(self).devices@,
                    Category::Anchor,
                    mac_address,
                    position,
                ) + spec_anchor_neighbor_events(
                    final(self).anchors@,
                    Category::Anchor,
                    mac_address,
                    position,
                )
            } else {
                &&& *final(self) == *old(self)
                &&& r.0 == Err::<(), PicaCommandError>(
                    PicaCommandError::DeviceNotFound(mac_address),
                )
                &&& r.1@.len() == 0
            },
    {
        match self.find_device_by_mac(&mac_address) {
            Some(k) => {
                {
                    let d = &mut self.devices[k];
                    d.position = position;
                }
                proof {
                    assert forall|i: int, j: int|
                        0 <= i < j < self.devices@.len() implies (
                    #[trigger] self.devices@[i].mac_address) != (
                    #[trigger] self.devices@[j].mac_address) by {
                        assert(
                            old(self).devices@[i].mac_address != old(self).devices@[j].mac_address
                        );
                    }
                    assert forall|i: int, j: int|
                        0 <= i < self.devices@.len() && 0 <= j < self.anchors@.len() implies (
                    #[trigger] self.devices@[i].mac_address) != (
                    #[trigger] self.anchors@[j].mac_address) by {
                        assert(
                            old(self).devices@[i].mac_address != old(self).anchors@[j].mac_address
                        );
                    }
                    assert(self.spec_has_device_mac(mac_address)) by {
                        assert(self.devices@[k as int].mac_address == mac_address);
                    }
                    assert(!self.spec_has_anchor(mac_address)) by {
                        if self.spec_has_anchor(mac_address) {
                            let j = self.spec_anchor_index(mac_address);
                            assert(old(self).devices@[k as int].mac_address == old(self).anchors@[j].mac_address);
                        }
                    }
                }
                let (status, events) = self.update_position(mac_address, position);
                (status, events)
            }
            None => {
                match self.find_anchor(&mac_address) {
                    Some(k) => {
                        {
                            let a = &mut self.anchors[k];
                            a.position = position;
                        }
                        proof {
                            assert(self.anchors@[k as int] == (Anchor { mac_address, position }));
                            assert forall|i: int, j: int|
                                0 <= i < j < self.anchors@.len() implies (
                            #[trigger] self.anchors@[i].mac_address) != (
                            #[trigger] self.anchors@[j].mac_address) by {
                                assert(
                                    old(self).anchors@[i].mac_address != old(self).anchors@[j].mac_address
                                );
                            }
                            assert forall|i: int, j: int|
                                0 <= i < self.devices@.len() && 0 <= j
                                    < self.anchors@.len() implies (
                            #[trigger] self.devices@[i].mac_address) != (
                            #[trigger] self.anchors@[j].mac_address) by {
                                assert(
                                    old(self).devices@[i].mac_address != old(self).anchors@[j].mac_address
                                );
                            }
                            assert(self.spec_has_anchor(mac_address)) by {
                                assert(self.anchors@[k as int].mac_address == mac_address);
                            }
                        }
                        let (status, events) = self.update_position(mac_address, position);
                        (status, events)
                    }
                    None => (Err(PicaCommandError::DeviceNotFound(mac_address)), Vec::new()),
                }
            }
        }
    }

    /// Stand a new anchor at a position, unless any participant already
    /// holds the address.
    pub fn create_anchor(&mut self, mac_address: MacAddress, position: Position) -> (r: (
        PicaCommandStatus,
        Option<PicaEvent>,
    ))
        requires
            old(self).wf(),
        ensures
            final(self).wf(),
            final(self).devices@ == old(self).devices@,
            final(self).counter == old(self).counter,
            if old(self).spec_mac_taken(mac_address) {
                &&& *final(self) == *old(self)
                &&& r.0 == Err::<(), PicaCommandError>(
                    PicaCommandError::DeviceAlreadyExists(mac_address),
                )
                &&& r.1 is None
            } else {
                &&& final(self).anchors@ == old(self).anchors@.push(
                    Anchor { mac_address, position },
                )
                &&& r.0 == Ok::<(), PicaCommandError>(())
                &&& r.1 == Some(
                    PicaEvent::DeviceAdded {
                        category: Category::Anchor,
                        mac_address,
                        position,
                    },
                )
            },
    {
        if self.get_category(&mac_address).is_some() {
            (Err(PicaCommandError::DeviceAlreadyExists(mac_address)), None)
        } else {
            self.anchors.push(Anchor { mac_address, position });
            (
                Ok(()),
                Some(
                    PicaEvent::DeviceAdded { category: Category::Anchor, mac_address, position },
                ),
            )
        }
    }

    /// Take an anchor down. An address no anchor holds reports that it
    /// was not found.
    pub fn destroy_anchor(&mut self, mac_address: MacAddress) -> (r: (
        PicaCommandStatus,
        Option<PicaEvent>,
    ))
        requires
            old(self).wf(),
        ensures
            final(self).wf(),
            final(self).devices@ == old(self).devices@,
            final(self).counter == old(self).counter,
            if old(self).spec_has_anchor(mac_address) {
                &&& final(self).anchors@ == old(self).anchors@.remove(
                    old(self).spec_anchor_index(mac_address),
                )
                &&& r.0 == Ok::<(), PicaCommandError>(())
                &&& r.1 == Some(
                    PicaEvent::DeviceRemoved { category: Category::Anchor, mac_address },
                )
            } else {
                &&& *final(self) == *old(self)
                &&& r.0 == Err::<(), PicaCommandError>(
                    PicaCommandError::DeviceNotFound(mac_address),
                )
                &&& r.1 is None
            },
    {
        match self.find_anchor(&mac_address) {
            None => (Err(PicaCommandError::DeviceNotFound(mac_address)), None),
            Some(k) => {
                let _removed: Anchor = self.anchors.remove(k);
                (
                    Ok(()),
                    Some(PicaEvent::DeviceRemoved { category: Category::Anchor, mac_address }),
                )
            }
        }
    }

    /// Snapshot every participant: anchors first, then devices, each
    /// with its kind, address and position.
    pub fn get_state(&self) -> (r: Vec<(Category, MacAddress, Position)>)
        ensures
            r@ == self.anchors@.map_values(
                |a: Anchor| (Category::Anchor, a.mac_address, a.position),
            ) + self.devices@.map_values(|d: Device| (Category::Uci, d.mac_address, d.position)),
    {
        let mut r: Vec<(Category, MacAddress, Position)> = Vec::new();
        let mut i: usize = 0;
        while i < self.anchors.len()
            invariant
                i <= self.anchors@.len(),
                r@.len() == i,
                forall|j: int|
                    0 <= j < i ==> r@[j] == (
                        Category::Anchor,
                        #[trigger] self.anchors@[j].mac_address,
                        self.anchors@[j].position,
                    ),
            decreases self.anchors@.len() - i,
        {
            r.push((Category::Anchor, self.anchors[i].mac_address, self.anchors[i].position));
            i += 1;
        }
        let mut j: usize = 0;
        while j < self.devices.len()
            invariant
                j <= self.devices@.len(),
                r@.len() == self.anchors@.len() + j,
                forall|m: int|
                    0 <= m < self.anchors@.len() ==> r@[m] == (
                        Category::Anchor,
                        #[trigger] self.anchors@[m].mac_address,
                        self.anchors@[m].position,
                    ),
                forall|m: int|
                    0 <= m < j ==> r@[self.anchors@.len() + m] == (
                        Category::Uci,
                        #[trigger] self.devices@[m].mac_address,
                        self.devices@[m].position,
                    ),
            decreases self.devices@.len() - j,
        {
            r.push((Category::Uci, self.devices[j].mac_address, self.devices[j].position));
            j += 1;
        }
        proof {
            assert(r@ =~= self.anchors@.map_values(
                |a: Anchor| (Category::Anchor, a.mac_address, a.position),
            ) + self.devices@.map_values(|d: Device| (Category::Uci, d.mac_address, d.position)));
        }
        r
    }

    /// Find the first device that can serve as ranging peer.
    fn find_peer(&self, cfg: &AppConfig, session_id: u32, mac: &MacAddress) -> (r: Option<usize>)
        requires
            self.wf(),
        ensures
            r is Some <==> spec_find_peer_from(self.devices@, cfg@, session_id, *mac, 0) >= 0,
            r matches Some(i) ==> i as int == spec_find_peer_from(
                self.devices@,
                cfg@,
                session_id,
                *mac,
                0,
            ) && i < self.devices@.len(),
    {
        let mut i: usize = 0;
        while i < self.devices.len()
            invariant
                self.wf(),
                i <= self.devices@.len(),
                spec_find_peer_from(self.devices@, cfg@, session_id, *mac, 0)
                    == spec_find_peer_from(self.devices@, cfg@, session_id, *mac, i as int),
            decreases self.devices@.len() - i,
        {
            let d = &self.devices[i];
            let matches_here: bool = match d.find_session(session_id) {
                Some(k) => {
                    let s = &d.sessions[k];
                    let own_ok: bool = match s.app_config.device_mac_address {
                        Some(own) => own == *mac,
                        None => false,
                    };
                    own_ok && cfg.can_start_ranging_with_peer(&s.app_config) && s.state
                        == SessionState::SessionStateActive
                }
                None => false,
            };
            if matches_here {
                proof {
                    assert(spec_peer_matches(self.devices@[i as int], cfg@, session_id, *mac));
                }
                return Some(i);
            }
            proof {
                assert(!spec_peer_matches(self.devices@[i as int], cfg@, session_id, *mac));
            }
            i += 1;
        }
        None
    }

    /// Run one ranging round for a device's session: one measurement
    /// toward every reachable destination, reported under the session's
    /// next sequence number, which then moves up by one. A missing
    /// device or session, a session not active, or a disabled
    /// notification policy reports nothing and changes nothing.
    pub fn ranging(&mut self, device_handle: usize, session_id: u32) -> (r: Option<
        ShortMacTwoWaySessionInfoNtf,
    >)
        requires
            old(self).wf(),
        ensures
            final(self).wf(),
            final(self).anchors@ == old(self).anchors@,
            final(self).counter == old(self).counter,
            !spec_ranging_reports(*old(self), device_handle, session_id) ==> *final(self) == *old(
                self,
            ) && r is None,
            spec_ranging_reports(*old(self), device_handle, session_id) ==> ({
                let k = old(self).spec_device_index(device_handle);
                let d = old(self).devices@[k];
                let ks = d.spec_session_index(session_id);
                let s = d.sessions@[ks];
                let post = final(self).devices@[k];
                &&& r matches Some(ntf) && {
                    &&& ntf.sequence_number == s.sequence_number
                    &&& ntf.session_token == session_id
                    &&& ntf.rcr_indicator == 0
                    &&& ntf.current_ranging_interval == 0
                    &&& ntf.two_way_ranging_measurements@ == spec_ranging_measurements(
                        *old(self),
                        d.position,
                        s.app_config@,
                        session_id,
                        s.app_config@.dst_mac_addresses,
                    )
                }
                &&& final(self).devices@ == old(self).devices@.update(k, post)
                &&& post.handle == d.handle
                &&& post.mac_address == d.mac_address
                &&& post.position == d.position
                &&& post.state == d.state
                &&& post.n_active_sessions == d.n_active_sessions
                &&& post.sessions@ == d.sessions@.update(ks, post.sessions@[ks])
                &&& post.sessions@[ks].id == s.id
                &&& post.sessions@[ks].state == s.state
                &&& post.sessions@[ks].session_type == s.session_type
                &&& post.sessions@[ks].ranging_task == s.ranging_task
                &&& post.sessions@[ks].app_config == s.app_config
                &&& post.sessions@[ks].sequence_number == (if s.sequence_number == u32::MAX {
                    0u32
                } else {
                    (s.sequence_number + 1) as u32
                })
            }),
    {
        let k: usize = match self.find_device(device_handle) {
            None => {
                return None;
            },
            Some(k) => k,
        };
        let ks: usize = match self.devices[k].find_session(session_id) {
            None => {
                return None;
            },
            Some(ks) => ks,
        };
        if self.devices[k].sessions[ks].state != SessionState::SessionStateActive {
            return None;
        }
        if self.devices[k].sessions[ks].app_config.range_data_ntf_config
            == RangeDataNtfConfig::Disable {
            return None;
        }
        let dpos: Position = self.devices[k].position;
        let seq_no: u32 = self.devices[k].sessions[ks].sequence_number;
        let ghost cfg: AppConfigModel = self.devices@[k as int].sessions@[ks as int].app_config@;
        let ghost macs: Seq<MacAddress> = self.devices@[k as int].sessions@[
            ks as int
        ].app_config.dst_mac_addresses@;

        let mut measurements: Vec<ShortAddressTwoWayRangingMeasurement> = Vec::new();
        let mut m: usize = 0;
        while m < self.devices[k].sessions[ks].app_config.dst_mac_addresses.len()
            invariant
                self.wf(),
                k < self.devices@.len(),
                ks < self.devices@[k as int].sessions@.len(),
                cfg == self.devices@[k as int].sessions@[ks as int].app_config@,
                macs == self.devices@[k as int].sessions@[
                    ks as int
                ].app_config.dst_mac_addresses@,
                dpos == self.devices@[k as int].position,
                m <= macs.len(),
                measurements@ =~= spec_ranging_measurements(
                    *self,
                    dpos,
                    cfg,
                    session_id,
                    macs.take(m as int),
                ),
            decreases macs.len() - m,
        {
            let mac: MacAddress = self.devices[k].sessions[ks].app_config.dst_mac_addresses[m];
            match self.find_anchor(&mac) {
                Some(ai) => {
                    let apos: Position = self.anchors[ai].position;
                    let local: (u16, i16, i8) = dpos.compute_range_azimuth_elevation(&apos);
                    let remote: (u16, i16, i8) = apos.compute_range_azimuth_elevation(&dpos);
                    proof {
                        lemma_distance_symmetric(dpos, apos);
                    }
                    match make_measurement(&mac, local, remote) {
                        Some(meas) => {
                            measurements.push(meas);
                        },
                        None => {},
                    }
                },
                None => {
                    let peer: Option<usize> = {
                        let d = &self.devices[k];
                        self.find_peer(&d.sessions[ks].app_config, session_id, &mac)
                    };
                    match peer {
                        Some(pi) => {
                            let ppos: Position = self.devices[pi].position;
                            let local: (u16, i16, i8) = dpos.compute_range_azimuth_elevation(
                                &ppos,
                            );
                            let remote: (u16, i16, i8) = ppos.compute_range_azimuth_elevation(
                                &dpos,
                            );
                            proof {
                                lemma_distance_symmetric(dpos, ppos);
                            }
                            match make_measurement(&mac, local, remote) {
                                Some(meas) => {
                                    measurements.push(meas);
                                },
                                None => {},
                            }
                        },
                        None => {},
                    }
                },
            }
            proof {
                lemma_ranging_measurements_snoc(*self, dpos, cfg, session_id, macs, m as int);
                assert(measurements@ =~= spec_ranging_measurements(
                    *self,
                    dpos,
                    cfg,
                    session_id,
                    macs.take(m + 1),
                ));
            }
            m += 1;
        }
        proof {
            assert(macs.take(macs.len() as int) =~= macs);
        }
        {
            let d = &mut self.devices[k];
            let s = &mut d.sessions[ks];
            s.sequence_number = if s.sequence_number == u32::MAX {
                0
            } else {
                s.sequence_number + 1
            };
        }
        proof {
            device::lemma_active_count_update(
                old(self).devices@[k as int].sessions@,
                ks as int,
                self.devices@[k as int].sessions@[ks as int],
            );
            assert forall|i: int, j: int|
                0 <= i < j < self.devices@.len() implies (#[trigger] self.devices@[i].handle) != (
            #[trigger] self.devices@[j].handle) by {
                assert(old(self).devices@[i].handle != old(self).devices@[j].handle);
            }
            assert forall|i: int, j: int|
                0 <= i < j < self.devices@.len() implies (#[trigger] self.devices@[i].mac_address)
                    != (#[trigger] self.devices@[j].mac_address) by {
                assert(old(self).devices@[i].mac_address != old(self).devices@[j].mac_address);
            }
            assert forall|i: int, j: int|
                0 <= i < self.devices@.len() && 0 <= j < self.anchors@.len() implies (
            #[trigger] self.devices@[i].mac_address) != (
            #[trigger] self.anchors@[j].mac_address) by {
                assert(old(self).devices@[i].mac_address != old(self).anchors@[j].mac_address);
            }
        }
        Some(
            ShortMacTwoWaySessionInfoNtf {
                sequence_number: seq_no,
                session_token: session_id,
                rcr_indicator: 0,
                current_ranging_interval: 0,
                two_way_ranging_measurements: measurements,
            },
        )
    }

    /// Carry an in-band stop to the device holding the addressed
    /// session: the first device running this session actively under
    /// the address leaves ranging for that reason; with no such device
    /// nothing changes.
    pub fn stop_controlee_ranging(&mut self, mac_address: &MacAddress, session_id: u32) -> (r: (
        Option<usize>,
        Vec<UciNotification>,
        Vec<TimerOp>,
    ))
        requires
            old(self).wf(),
        ensures
            final(self).wf(),
            final(self).anchors@ == old(self).anchors@,
            final(self).counter == old(self).counter,
            ({
                let t = spec_find_stop_target_from(old(self).devices@, *mac_address, session_id, 0);
                &&& t < 0 ==> *final(self) == *old(self) && r.0 is None && r.1@.len() == 0
                    && r.2@.len() == 0
                &&& t >= 0 ==> {
                    &&& r.0 == Some(old(self).devices@[t].handle)
                    &&& final(self).devices@ == old(self).devices@.update(
                        t,
                        final(self).devices@[t],
                    )
                    &&& Device::spec_session_stopped(
                        old(self).devices@[t],
                        final(self).devices@[t],
                        session_id,
                        ReasonCode::SessionStoppedDueToInbandSignal,
                        r.1@,
                        r.2@,
                    )
                }
            }),
    {
        let mut i: usize = 0;
        let found: Option<usize>;
        loop
            invariant_except_break
                self.wf(),
                i <= self.devices@.len(),
                *self == *old(self),
                spec_find_stop_target_from(self.devices@, *mac_address, session_id, 0)
                    == spec_find_stop_target_from(self.devices@, *mac_address, session_id, i as int),
            ensures
                *self == *old(self),
                found is Some <==> spec_find_stop_target_from(
                    self.devices@,
                    *mac_address,
                    session_id,
                    0,
                ) >= 0,
                found matches Some(t) ==> t as int == spec_find_stop_target_from(
                    self.devices@,
                    *mac_address,
                    session_id,
                    0,
                ) && (t as int) < self.devices@.len() && self.devices@[t as int].spec_has_session(
                    session_id,
                ) && self.devices@[t as int].spec_session(session_id).state
                    == SessionState::SessionStateActive,
            decreases self.devices@.len() - i,
        {
            if i >= self.devices.len() {
                found = None;
                break ;
            }
            let d = &self.devices[i];
            let matches_here: bool = match d.find_session(session_id) {
                Some(ks) => {
                    let s = &d.sessions[ks];
                    let own_ok: bool = match s.app_config.device_mac_address {
                        Some(own) => own == *mac_address,
                        None => false,
                    };
                    own_ok && s.state == SessionState::SessionStateActive
                },
                None => false,
            };
            if matches_here {
                found = Some(i);
                break ;
            }
            i += 1;
        }
        match found {
            None => (None, Vec::new(), Vec::new()),
            Some(t) => {
                let handle: usize = self.devices[t].handle;
                let r: (Vec<UciNotification>, Vec<TimerOp>);
                {
                    let d = &mut self.devices[t];
                    r = d.stop_ranging_inband(session_id);
                }
                proof {
                    assert forall|i2: int, j2: int|
                        0 <= i2 < j2 < self.devices@.len() implies (
                    #[trigger] self.devices@[i2].handle) != (
                    #[trigger] self.devices@[j2].handle) by {
                        assert(old(self).devices@[i2].handle != old(self).devices@[j2].handle);
                    }
                    assert forall|i2: int, j2: int|
                        0 <= i2 < j2 < self.devices@.len() implies (
                    #[trigger] self.devices@[i2].mac_address) != (
                    #[trigger] self.devices@[j2].mac_address) by {
                        assert(old(self).devices@[i2].mac_address != old(
                            self,
                        ).devices@[j2].mac_address);
                    }
                    assert forall|i2: int, j2: int|
                        0 <= i2 < self.devices@.len() && 0 <= j2 < self.anchors@.len() implies (
                    #[trigger] self.devices@[i2].mac_address) != (
                    #[trigger] self.anchors@[j2].mac_address) by {
                        assert(old(self).devices@[i2].mac_address != old(
                            self,
                        ).anchors@[j2].mac_address);
                    }
                }
                (Some(handle), r.0, r.1)
            },
        }
    }
}

/// The measurement one participant at `a` reports about another at `b`.
pub open spec fn spec_measure_toward(mac16: u16, a: Position, b: Position)
    -> ShortAddressTwoWayRangingMeasurement {
    spec_measurement_record(
        mac16,
        (spec_distance(a, b) as u16, spec_azimuth(a, b) as i16, spec_elevation(a, b) as i8),
        (spec_distance(b, a) as u16, spec_azimuth(b, a) as i16, spec_elevation(b, a) as i8),
    )
}

/// Whether a device can serve as ranging peer for the given session:
/// it runs the same session actively, under the asked-for address, and
/// its configuration is compatible.
pub open spec fn spec_peer_matches(
    d: Device,
    cfg: AppConfigModel,
    session_id: u32,
    mac: MacAddress,
) -> bool {
    &&& d.spec_has_session(session_id)
    &&& d.spec_session(session_id).app_config@.device_mac_address == Some(mac)
    &&& AppConfig::spec_compatible_with(cfg, d.spec_session(session_id).app_config@)
    &&& d.spec_session(session_id).state == SessionState::SessionStateActive
}

/// The first index at or after `i` of a device that can serve as peer,
/// or -1 when none can.
pub open spec fn spec_find_peer_from(
    devs: Seq<Device>,
    cfg: AppConfigModel,
    session_id: u32,
    mac: MacAddress,
    i: int,
) -> int
    decreases devs.len() - i,
{
    if i < 0 || i >= devs.len() {
        -1
    } else if spec_peer_matches(devs[i], cfg, session_id, mac) {
        i
    } else {
        spec_find_peer_from(devs, cfg, session_id, mac, i + 1)
    }
}

/// The measurements one destination address contributes to a ranging
/// round: one toward the anchor standing under it, or else — only when
/// no anchor holds the address — one toward the first peer device
/// serving it. Either way only a short address can be reported.
pub open spec fn spec_mac_measurements(
    p: Pica,
    dpos: Position,
    cfg: AppConfigModel,
    session_id: u32,
    mac: MacAddress,
) -> Seq<ShortAddressTwoWayRangingMeasurement> {
    let peer = spec_find_peer_from(p.devices@, cfg, session_id, mac, 0);
    if p.spec_has_anchor(mac) {
        if mac is Short {
            seq![
                spec_measure_toward(
                    mac.short_value(),
                    dpos,
                    p.anchors@[p.spec_anchor_index(mac)].position,
                ),
            ]
        } else {
            Seq::<ShortAddressTwoWayRangingMeasurement>::empty()
        }
    } else if peer >= 0 && mac is Short {
        seq![spec_measure_toward(mac.short_value(), dpos, p.devices@[peer].position)]
    } else {
        Seq::<ShortAddressTwoWayRangingMeasurement>::empty()
    }
}

/// The measurements of a whole ranging round, destination by
/// destination in configuration order.
pub open spec fn spec_ranging_measurements(
    p: Pica,
    dpos: Position,
    cfg: AppConfigModel,
    session_id: u32,
    macs: Seq<MacAddress>,
) -> Seq<ShortAddressTwoWayRangingMeasurement>
    decreases macs.len(),
{
    if macs.len() == 0 {
        Seq::empty()
    } else {
        spec_mac_measurements(p, dpos, cfg, session_id, macs[0]) + spec_ranging_measurements(
            p,
            dpos,
            cfg,
            session_id,
            macs.skip(1),
        )
    }
}

/// Whether a ranging tick for this handle and session reports to the
/// host: the device and session must stand, the session must be
/// active, and measurement notifications must not be disabled.
pub open spec fn spec_ranging_reports(p: Pica, device_handle: usize, session_id: u32) -> bool {
    &&& p.spec_has_device(device_handle)
    &&& p.spec_device(device_handle).spec_has_session(session_id)
    &&& p.spec_device(device_handle).spec_session(session_id).state
        == SessionState::SessionStateActive
    &&& p.spec_device(device_handle).spec_session(session_id).app_config@.range_data_ntf_config
        == RangeDataNtfConfig::Enable
}

/// The first index of a device holding this session actively under the
/// asked-for address, or -1 when none does.
pub open spec fn spec_find_stop_target_from(
    devs: Seq<Device>,
    mac: MacAddress,
    session_id: u32,
    i: int,
) -> int
    decreases devs.len() - i,
{
    if i < 0 || i >= devs.len() {
        -1
    } else if devs[i].spec_has_session(session_id) && devs[i].spec_session(
        session_id,
    ).app_config@.device_mac_address == Some(mac) && devs[i].spec_session(session_id).state
        == SessionState::SessionStateActive {
        i
    } else {
        spec_find_stop_target_from(devs, mac, session_id, i + 1)
    }
}

/// A device's controller is active exactly while at least one of its
/// sessions is.
pub proof fn lemma_device_state_iff_active_sessions(d: Device)
    requires
        d.wf(),
    ensures
        d.state == DeviceState::DeviceStateActive <==> d.n_active_sessions > 0,
{
}

/// A session's ranging timer is scheduled exactly while the session is
/// active.
pub proof fn lemma_ranging_timer_iff_active(d: Device, session_id: u32)
    requires
        d.wf(),
        d.spec_has_session(session_id),
    ensures
        d.spec_session(session_id).ranging_task <==> d.spec_session(session_id).state
            == SessionState::SessionStateActive,
{
    let k = d.spec_session_index(session_id);
    assert(d.sessions@[k].wf());
}

/// A ranging tick for a handle under which no device stands reports
/// nothing: once a device is disconnected, a tick that was already in
/// flight finds nothing and is a no-op.
pub proof fn lemma_no_ranging_after_disconnect(p: Pica, device_handle: usize, session_id: u32)
    requires
        !p.spec_has_device(device_handle),
    ensures
        !spec_ranging_reports(p, device_handle, session_id),
{
}

/// Measurement notifications of one session carry strictly increasing
/// sequence numbers, one apart: a round reports the stored number and
/// leaves the session holding its successor, so the next round reports
/// exactly one more. The counter starts at zero when the session is
/// created, and the statement leaves out the one input on which it
/// cannot hold, a stored counter at the top of the register, where the
/// successor wraps to zero.
pub proof fn lemma_sequence_numbers_consecutive(s0: Session, s1: Session, n0: u32, n1: u32)
    requires
        n0 == s0.sequence_number,
        s0.sequence_number < u32::MAX,
        s1.sequence_number == (if s0.sequence_number == u32::MAX {
            0u32
        } else {
            (s0.sequence_number + 1) as u32
        }),
        n1 == s1.sequence_number,
    ensures
        n1 == n0 + 1,
{
}

/// No address is ever shared between a device and an anchor.
pub proof fn lemma_mac_uniqueness(p: Pica, i: int, j: int)
    requires
        p.wf(),
        0 <= i < p.devices@.len(),
        0 <= j < p.anchors@.len(),
    ensures
        p.devices@[i].mac_address != p.anchors@[j].mac_address,
{
}

/// Creating an anchor under a fresh address and then destroying it
/// leaves the registry exactly as it was.
pub proof fn lemma_create_destroy_anchor_round_trip(
    p0: Pica,
    p1: Pica,
    p2: Pica,
    mac: MacAddress,
    position: Position,
)
    requires
        p0.wf(),
        p1.wf(),
        !p0.spec_mac_taken(mac),
        p1.devices@ == p0.devices@,
        p1.counter == p0.counter,
        p1.anchors@ == p0.anchors@.push(Anchor { mac_address: mac, position }),
        p2.devices@ == p1.devices@,
        p2.counter == p1.counter,
        p2.anchors@ == p1.anchors@.remove(p1.spec_anchor_index(mac)),
    ensures
        p2.anchors@ == p0.anchors@,
        p2.devices@ == p0.devices@,
        p2.counter == p0.counter,
{
    assert(p1.spec_has_anchor(mac)) by {
        assert(p1.anchors@[p0.anchors@.len() as int].mac_address == mac);
    }
    let k = p1.spec_anchor_index(mac);
    assert(p1.anchors@[k].mac_address == mac);
    if k < p0.anchors@.len() {
        assert(p0.anchors@[k].mac_address == mac);
        assert(p0.spec_has_anchor(mac));
    }
    assert(k == p0.anchors@.len());
    assert(p1.anchors@.remove(k) =~= p0.anchors@);
}

/// Moving a participant to a position it already holds changes the
/// stored state no further: the second of two identical moves leaves
/// the registry exactly as the first left it.
pub proof fn lemma_set_position_idempotent_device(
    p0: Pica,
    p1: Pica,
    p2: Pica,
    mac: MacAddress,
    position: Position,
)
    requires
        p0.wf(),
        p1.wf(),
        p0.spec_has_device_mac(mac),
        ({
            let k = p0.spec_device_mac_index(mac);
            let pre = p0.devices@[k];
            let post = p1.devices@[k];
            &&& p1.devices@ == p0.devices@.update(k, post)
            &&& post.handle == pre.handle
            &&& post.mac_address == pre.mac_address
            &&& post.position == position
            &&& post.state == pre.state
            &&& post.sessions == pre.sessions
            &&& post.n_active_sessions == pre.n_active_sessions
            &&& p1.anchors@ == p0.anchors@
            &&& p1.counter == p0.counter
        }),
        p1.spec_has_device_mac(mac),
        ({
            let k = p1.spec_device_mac_index(mac);
            let pre = p1.devices@[k];
            let post = p2.devices@[k];
            &&& p2.devices@ == p1.devices@.update(k, post)
            &&& post.handle == pre.handle
            &&& post.mac_address == pre.mac_address
            &&& post.position == position
            &&& post.state == pre.state
            &&& post.sessions == pre.sessions
            &&& post.n_active_sessions == pre.n_active_sessions
            &&& p2.anchors@ == p1.anchors@
            &&& p2.counter == p1.counter
        }),
    ensures
        p2.devices@ == p1.devices@,
        p2.anchors@ == p1.anchors@,
        p2.counter == p1.counter,
{
    let k0 = p0.spec_device_mac_index(mac);
    let k1 = p1.spec_device_mac_index(mac);
    assert(p0.devices@[k0].mac_address == mac);
    assert(p1.devices@[k1].mac_address == mac);
    assert(p1.devices@[k0].mac_address == mac);
    if k1 != k0 {
        assert(false);
    }
    let d1 = p1.devices@[k0];
    let d2 = p2.devices@[k0];
    assert(d2.handle == d1.handle && d2.mac_address == d1.mac_address && d2.position == d1.position
        && d2.state == d1.state && d2.sessions == d1.sessions && d2.n_active_sessions
        == d1.n_active_sessions);
    assert(d2 == d1);
    assert(p2.devices@ =~= p1.devices@);
}

/// Moving an anchor to a position it already holds changes the stored
/// state no further.
pub proof fn lemma_set_position_idempotent_anchor(
    p0: Pica,
    p1: Pica,
    p2: Pica,
    mac: MacAddress,
    position: Position,
)
    requires
        p0.wf(),
        p1.wf(),
        p0.spec_has_anchor(mac),
        p1.anchors@ == p0.anchors@.update(
            p0.spec_anchor_index(mac),
            Anchor { mac_address: mac, position },
        ),
        p1.devices@ == p0.devices@,
        p1.counter == p0.counter,
        p1.spec_has_anchor(mac),
        p2.anchors@ == p1.anchors@.update(
            p1.spec_anchor_index(mac),
            Anchor { mac_address: mac, position },
        ),
        p2.devices@ == p1.devices@,
        p2.counter == p1.counter,
    ensures
        p2.anchors@ == p1.anchors@,
        p2.devices@ == p1.devices@,
        p2.counter == p1.counter,
{
    let k0 = p0.spec_anchor_index(mac);
    let k1 = p1.spec_anchor_index(mac);
    assert(p0.anchors@[k0].mac_address == mac);
    assert(p1.anchors@[k1].mac_address == mac);
    assert(p1.anchors@[k0].mac_address == mac);
    if k1 != k0 {
        assert(false);
    }
    assert(p1.anchors@[k0] == (Anchor { mac_address: mac, position }));
    assert(p2.anchors@ =~= p1.anchors@);
}

/// How many participant-update reports a list of events carries.
pub open spec fn spec_count_device_updated(events: Seq<PicaEvent>) -> int
    decreases events.len(),
{
    if events.len() == 0 {
        0
    } else {
        (if events[0] is DeviceUpdated {
            1int
        } else {
            0int
        }) + spec_count_device_updated(events.skip(1))
    }
}

/// The count distributes over concatenation.
proof fn lemma_count_device_updated_concat(a: Seq<PicaEvent>, b: Seq<PicaEvent>)
    ensures
        spec_count_device_updated(a + b) == spec_count_device_updated(a)
            + spec_count_device_updated(b),
    decreases a.len(),
{
    if a.len() == 0 {
        assert(a + b =~= b);
    } else {
        lemma_count_device_updated_concat(a.skip(1), b);
        assert((a + b)[0] == a[0]);
        assert((a + b).skip(1) =~= a.skip(1) + b);
    }
}

/// A pair of neighbor reports holds no participant update.
proof fn lemma_count_neighbor_pair(
    cat: Category,
    mac: MacAddress,
    position: Position,
    ocat: Category,
    omac: MacAddress,
    opos: Position,
)
    ensures
        spec_count_device_updated(spec_neighbor_pair(cat, mac, position, ocat, omac, opos)) == 0,
{
    let s = spec_neighbor_pair(cat, mac, position, ocat, omac, opos);
    assert(s.skip(1)[0] == s[1]);
    assert(s.skip(1).skip(1) =~= Seq::<PicaEvent>::empty());
    assert(spec_count_device_updated(Seq::<PicaEvent>::empty()) == 0);
    assert(spec_count_device_updated(s.skip(1)) == 0);
}

/// Neighbor reports toward devices are never participant updates.
proof fn lemma_device_neighbor_events_no_update(
    devs: Seq<Device>,
    cat: Category,
    mac: MacAddress,
    position: Position,
)
    ensures
        spec_count_device_updated(spec_device_neighbor_events(devs, cat, mac, position)) == 0,
    decreases devs.len(),
{
    if devs.len() > 0 {
        lemma_device_neighbor_events_no_update(devs.skip(1), cat, mac, position);
        let head = if devs[0].mac_address != mac {
            spec_neighbor_pair(cat, mac, position, Category::Uci, devs[0].mac_address, devs[0].position)
        } else {
            Seq::<PicaEvent>::empty()
        };
        lemma_count_device_updated_concat(
            head,
            spec_device_neighbor_events(devs.skip(1), cat, mac, position),
        );
        if devs[0].mac_address != mac {
            lemma_count_neighbor_pair(
                cat,
                mac,
                position,
                Category::Uci,
                devs[0].mac_address,
                devs[0].position,
            );
        } else {
            assert(spec_count_device_updated(Seq::<PicaEvent>::empty()) == 0);
        }
        assert(spec_count_device_updated(head) == 0);
    }
}

/// Neighbor reports toward anchors are never participant updates.
proof fn lemma_anchor_neighbor_events_no_update(
    anchors: Seq<Anchor>,
    cat: Category,
    mac: MacAddress,
    position: Position,
)
    ensures
        spec_count_device_updated(spec_anchor_neighbor_events(anchors, cat, mac, position)) == 0,
    decreases anchors.len(),
{
    if anchors.len() > 0 {
        lemma_anchor_neighbor_events_no_update(anchors.skip(1), cat, mac, position);
        let head = if anchors[0].mac_address != mac {
            spec_neighbor_pair(
                cat,
                mac,
                position,
                Category::Anchor,
                anchors[0].mac_address,
                anchors[0].position,
            )
        } else {
            Seq::<PicaEvent>::empty()
        };
        lemma_count_device_updated_concat(
            head,
            spec_anchor_neighbor_events(anchors.skip(1), cat, mac, position),
        );
        if anchors[0].mac_address != mac {
            lemma_count_neighbor_pair(
                cat,
                mac,
                position,
                Category::Anchor,
                anchors[0].mac_address,
                anchors[0].position,
            );
        } else {
            assert(spec_count_device_updated(Seq::<PicaEvent>::empty()) == 0);
        }
        assert(spec_count_device_updated(head) == 0);
    }
}

/// Moving a participant emits exactly one participant-update report;
/// everything else in the announcement is a neighbor report.
pub proof fn lemma_set_position_one_update_event(
    devs: Seq<Device>,
    anchors: Seq<Anchor>,
    cat: Category,
    mac: MacAddress,
    position: Position,
)
    ensures
        spec_count_device_updated(
            seq![PicaEvent::DeviceUpdated { category: cat, mac_address: mac, position }]
                + spec_device_neighbor_events(devs, cat, mac, position)
                + spec_anchor_neighbor_events(anchors, cat, mac, position),
        ) == 1,
{
    let head = seq![PicaEvent::DeviceUpdated { category: cat, mac_address: mac, position }];
    let dev_events = spec_device_neighbor_events(devs, cat, mac, position);
    let anchor_events = spec_anchor_neighbor_events(anchors, cat, mac, position);
    lemma_count_device_updated_concat(head + dev_events, anchor_events);
    lemma_count_device_updated_concat(head, dev_events);
    lemma_device_neighbor_events_no_update(devs, cat, mac, position);
    lemma_anchor_neighbor_events_no_update(anchors, cat, mac, position);
    assert(head.skip(1) =~= Seq::<PicaEvent>::empty());
    assert(spec_count_device_updated(Seq::<PicaEvent>::empty()) == 0);
    assert(spec_count_device_updated(head) == 1);
}

/// The measurements of the first `i + 1` destinations are those of the
/// first `i` plus what the next destination contributes.
proof fn lemma_ranging_measurements_snoc(
    p: Pica,
    dpos: Position,
    cfg: AppConfigModel,
    session_id: u32,
    macs: Seq<MacAddress>,
    i: int,
)
    requires
        0 <= i < macs.len(),
    ensures
        spec_ranging_measurements(p, dpos, cfg, session_id, macs.take(i + 1))
            == spec_ranging_measurements(p, dpos, cfg, session_id, macs.take(i))
            + spec_mac_measurements(p, dpos, cfg, session_id, macs[i]),
    decreases i,
{
    if i == 0 {
        assert(macs.take(1)[0] == macs[0]);
        assert(macs.take(1).skip(1) =~= Seq::<MacAddress>::empty());
        assert(macs.take(0) =~= Seq::<MacAddress>::empty());
        assert(spec_ranging_measurements(p, dpos, cfg, session_id, Seq::<MacAddress>::empty())
            == Seq::<ShortAddressTwoWayRangingMeasurement>::empty());
        assert(spec_ranging_measurements(p, dpos, cfg, session_id, macs.take(1))
            =~= spec_mac_measurements(p, dpos, cfg, session_id, macs[0]));
    } else {
        lemma_ranging_measurements_snoc(p, dpos, cfg, session_id, macs.skip(1), i - 1);
        assert(macs.take(i + 1)[0] == macs[0]);
        assert(macs.take(i + 1).skip(1) =~= macs.skip(1).take(i));
        assert(macs.take(i)[0] == macs[0]);
        assert(macs.take(i).skip(1) =~= macs.skip(1).take(i - 1));
        assert(macs.skip(1)[i - 1] == macs[i]);
        let head = spec_mac_measurements(p, dpos, cfg, session_id, macs[0]);
        let tail = spec_mac_measurements(p, dpos, cfg, session_id, macs[i]);
        assert(spec_ranging_measurements(p, dpos, cfg, session_id, macs.take(i + 1)) == head
            + spec_ranging_measurements(p, dpos, cfg, session_id, macs.skip(1).take(i)));
        assert(spec_ranging_measurements(p, dpos, cfg, session_id, macs.take(i)) == head
            + spec_ranging_measurements(p, dpos, cfg, session_id, macs.skip(1).take(i - 1)));
        assert(head + (spec_ranging_measurements(p, dpos, cfg, session_id, macs.skip(1).take(i - 1))
            + tail) =~= (head + spec_ranging_measurements(
            p,
            dpos,
            cfg,
            session_id,
            macs.skip(1).take(i - 1),
        )) + tail);
    }
}

/// The neighbor reports toward the first `i + 1` devices are those
/// toward the first `i` plus what the next device contributes.
proof fn lemma_device_neighbor_events_snoc(
    devs: Seq<Device>,
    i: int,
    cat: Category,
    mac: MacAddress,
    position: Position,
)
    requires
        0 <= i < devs.len(),
    ensures
        spec_device_neighbor_events(devs.take(i + 1), cat, mac, position)
            == spec_device_neighbor_events(devs.take(i), cat, mac, position) + (if devs[i].mac_address
            != mac {
            spec_neighbor_pair(cat, mac, position, Category::Uci, devs[i].mac_address, devs[i].position)
        } else {
            Seq::<PicaEvent>::empty()
        }),
    decreases i,
{
    if i == 0 {
        assert(devs.take(1)[0] == devs[0]);
        assert(devs.take(1).skip(1) =~= Seq::<Device>::empty());
        assert(devs.take(0) =~= Seq::<Device>::empty());
        assert(spec_device_neighbor_events(Seq::<Device>::empty(), cat, mac, position)
            == Seq::<PicaEvent>::empty());
        assert(spec_device_neighbor_events(devs.take(1), cat, mac, position) =~= (if devs[0].mac_address
            != mac {
            spec_neighbor_pair(cat, mac, position, Category::Uci, devs[0].mac_address, devs[0].position)
        } else {
            Seq::<PicaEvent>::empty()
        }));
    } else {
        lemma_device_neighbor_events_snoc(devs.skip(1), i - 1, cat, mac, position);
        assert(devs.take(i + 1)[0] == devs[0]);
        assert(devs.take(i + 1).skip(1) =~= devs.skip(1).take(i));
        assert(devs.take(i)[0] == devs[0]);
        assert(devs.take(i).skip(1) =~= devs.skip(1).take(i - 1));
        assert(devs.skip(1)[i - 1] == devs[i]);
        let head = if devs[0].mac_address != mac {
            spec_neighbor_pair(cat, mac, position, Category::Uci, devs[0].mac_address, devs[0].position)
        } else {
            Seq::<PicaEvent>::empty()
        };
        let tail = if devs[i].mac_address != mac {
            spec_neighbor_pair(cat, mac, position, Category::Uci, devs[i].mac_address, devs[i].position)
        } else {
            Seq::<PicaEvent>::empty()
        };
        assert(spec_device_neighbor_events(devs.take(i + 1), cat, mac, position) == head
            + spec_device_neighbor_events(devs.skip(1).take(i), cat, mac, position));
        assert(spec_device_neighbor_events(devs.take(i), cat, mac, position) == head
            + spec_device_neighbor_events(devs.skip(1).take(i - 1), cat, mac, position));
        assert(head + (spec_device_neighbor_events(devs.skip(1).take(i - 1), cat, mac, position)
            + tail) =~= (head + spec_device_neighbor_events(
            devs.skip(1).take(i - 1),
            cat,
            mac,
            position,
        )) + tail);
    }
}

/// The neighbor reports toward the first `i + 1` anchors are those
/// toward the first `i` plus what the next anchor contributes.
proof fn lemma_anchor_neighbor_events_snoc(
    anchors: Seq<Anchor>,
    i: int,
    cat: Category,
    mac: MacAddress,
    position: Position,
)
    requires
        0 <= i < anchors.len(),
    ensures
        spec_anchor_neighbor_events(anchors.take(i + 1), cat, mac, position)
            == spec_anchor_neighbor_events(anchors.take(i), cat, mac, position) + (if anchors[i].mac_address
            != mac {
            spec_neighbor_pair(
                cat,
                mac,
                position,
                Category::Anchor,
                anchors[i].mac_address,
                anchors[i].position,
            )
        } else {
            Seq::<PicaEvent>::empty()
        }),
    decreases i,
{
    if i == 0 {
        assert(anchors.take(1)[0] == anchors[0]);
        assert(anchors.take(1).skip(1) =~= Seq::<Anchor>::empty());
        assert(anchors.take(0) =~= Seq::<Anchor>::empty());
        assert(spec_anchor_neighbor_events(Seq::<Anchor>::empty(), cat, mac, position)
            == Seq::<PicaEvent>::empty());
        assert(spec_anchor_neighbor_events(anchors.take(1), cat, mac, position) =~= (if anchors[0].mac_address
            != mac {
            spec_neighbor_pair(
                cat,
                mac,
                position,
                Category::Anchor,
                anchors[0].mac_address,
                anchors[0].position,
            )
        } else {
            Seq::<PicaEvent>::empty()
        }));
    } else {
        lemma_anchor_neighbor_events_snoc(anchors.skip(1), i - 1, cat, mac, position);
        assert(anchors.take(i + 1)[0] == anchors[0]);
        assert(anchors.take(i + 1).skip(1) =~= anchors.skip(1).take(i));
        assert(anchors.take(i)[0] == anchors[0]);
        assert(anchors.take(i).skip(1) =~= anchors.skip(1).take(i - 1));
        assert(anchors.skip(1)[i - 1] == anchors[i]);
        let head = if anchors[0].mac_address != mac {
            spec_neighbor_pair(
                cat,
                mac,
                position,
                Category::Anchor,
                anchors[0].mac_address,
                anchors[0].position,
            )
        } else {
            Seq::<PicaEvent>::empty()
        };
        let tail = if anchors[i].mac_address != mac {
            spec_neighbor_pair(
                cat,
                mac,
                position,
                Category::Anchor,
                anchors[i].mac_address,
                anchors[i].position,
            )
        } else {
            Seq::<PicaEvent>::empty()
        };
        assert(spec_anchor_neighbor_events(anchors.take(i + 1), cat, mac, position) == head
            + spec_anchor_neighbor_events(anchors.skip(1).take(i), cat, mac, position));
        assert(spec_anchor_neighbor_events(anchors.take(i), cat, mac, position) == head
            + spec_anchor_neighbor_events(anchors.skip(1).take(i - 1), cat, mac, position));
        assert(head + (spec_anchor_neighbor_events(
            anchors.skip(1).take(i - 1),
            cat,
            mac,
            position,
        ) + tail) =~= (head + spec_anchor_neighbor_events(
            anchors.skip(1).take(i - 1),
            cat,
            mac,
            position,
        )) + tail);
    }
}

} // verus!
