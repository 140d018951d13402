//! Byte codec for the control-plane vocabulary: narrowing complete
//! control packets to typed commands, narrowing data packets, and
//! serializing responses and notifications.
//!
//! Commands live in groups: group 0 carries the core commands, group 1
//! the session configuration commands, group 2 the session control
//! commands. The opcode sits in the low six bits of the second header
//! byte. Multi-byte integers are little-endian.

use crate::mac_address::MacAddress;
use crate::transport::spec_gid_bits;
use crate::uci::{
    reason_code_value, session_state_value, spec_reason_code_value, spec_session_state_value,
    spec_status_value, status_value, AppConfigTlv, DataPacket,
    ShortAddressTwoWayRangingMeasurement, UciCommand, UciNotification, UciResponse,
};
use vstd::prelude::*;

verus! {

/// The 32-bit little-endian value starting at `off`.
pub open spec fn spec_u32_le(b: Seq<u8>, off: int) -> int
    recommends
        0 <= off,
        off + 4 <= b.len(),
{
    b[off] + 0x100 * b[off + 1] + 0x10000 * b[off + 2] + 0x1000000 * b[off + 3]
}

/// The 64-bit little-endian value starting at `off`.
pub open spec fn spec_u64_le(b: Seq<u8>, off: int) -> int
    recommends
        0 <= off,
        off + 8 <= b.len(),
{
    spec_u32_le(b, off) + 0x100000000 * spec_u32_le(b, off + 4)
}

/// Little-endian bytes of a 16-bit value.
pub open spec fn spec_le16(v: u16) -> Seq<u8> {
    seq![(v & 0xff) as u8, (v >> 8) as u8]
}

/// Little-endian bytes of a 32-bit value.
pub open spec fn spec_le32(v: u32) -> Seq<u8> {
    seq![
        (v & 0xff) as u8,
        ((v >> 8) & 0xff) as u8,
        ((v >> 16) & 0xff) as u8,
        ((v >> 24) & 0xff) as u8,
    ]
}

/// Read the 32-bit little-endian value starting at `off`.
pub fn read_u32_le(b: &Vec<u8>, off: usize) -> (r: u32)
    requires
        off + 4 <= b@.len(),
    ensures
        r as int == spec_u32_le(b@, off as int),
{
    let _n: usize = b.len();
    b[off] as u32 + 0x100 * (b[off + 1] as u32) + 0x10000 * (b[off + 2] as u32) + 0x1000000 * (b[off
        + 3] as u32)
}

/// Append the little-endian bytes of a 16-bit value.
pub fn push_le16(out: &mut Vec<u8>, v: u16)
    ensures
        final(out)@ == old(out)@ + spec_le16(v),
{
    out.push((v & 0xff) as u8);
    out.push((v >> 8) as u8);
    proof {
        assert(out@ =~= old(out)@ + spec_le16(v));
    }
}

/// Append the little-endian bytes of a 32-bit value.
pub fn push_le32(out: &mut Vec<u8>, v: u32)
    ensures
        final(out)@ == old(out)@ + spec_le32(v),
{
    out.push((v & 0xff) as u8);
    out.push(((v >> 8) & 0xff) as u8);
    out.push(((v >> 16) & 0xff) as u8);
    out.push(((v >> 24) & 0xff) as u8);
    proof {
        assert(out@ =~= old(out)@ + spec_le32(v));
    }
}

/// Whether `n` type/length/value entries fill `b` exactly.
pub open spec fn spec_tlvs_well_formed(b: Seq<u8>, n: int) -> bool
    decreases n,
{
    if n <= 0 {
        n == 0 && b.len() == 0
    } else {
        b.len() >= 2 && b.len() >= 2 + b[1] && spec_tlvs_well_formed(b.skip(2 + b[1]), n - 1)
    }
}

/// The `n` type/length/value entries of `b`, as tag and value bytes.
pub open spec fn spec_parse_tlvs(b: Seq<u8>, n: int) -> Seq<(u8, Seq<u8>)>
    decreases n,
{
    if n <= 0 {
        Seq::empty()
    } else {
        seq![(b[0], b.subrange(2, 2 + b[1]))] + spec_parse_tlvs(b.skip(2 + b[1]), n - 1)
    }
}

/// The tags and value bytes of a parsed configuration list.
pub open spec fn spec_tlv_views(s: Seq<AppConfigTlv>) -> Seq<(u8, Seq<u8>)> {
    s.map_values(|t: AppConfigTlv| (t.tag, t.value@))
}

/// Parse `n` type/length/value entries out of `b` starting at `start`;
/// they must fill the rest of `b` exactly.
pub fn parse_tlvs(b: &Vec<u8>, start: usize, n: u8) -> (r: Option<Vec<AppConfigTlv>>)
    requires
        start <= b@.len(),
    ensures
        r is Some <==> spec_tlvs_well_formed(b@.skip(start as int), n as int),
        r matches Some(params) ==> spec_tlv_views(params@) == spec_parse_tlvs(
            b@.skip(start as int),
            n as int,
        ),
{
    let ghost orig: Seq<u8> = b@.skip(start as int);
    let mut params: Vec<AppConfigTlv> = Vec::new();
    let mut offset: usize = start;
    let mut k: u8 = 0;
    while k < n
        invariant
            start <= offset <= b@.len(),
            k <= n,
            orig == b@.skip(start as int),
            spec_tlvs_well_formed(orig, n as int) <==> spec_tlvs_well_formed(
                b@.skip(offset as int),
                n - k,
            ),
            spec_tlvs_well_formed(orig, n as int) ==> spec_parse_tlvs(orig, n as int)
                =~= spec_tlv_views(params@) + spec_parse_tlvs(b@.skip(offset as int), n - k),
            params@.len() == k,
        decreases n - k,
    {
        let remaining: usize = b.len() - offset;
        if remaining < 2 {
            return None;
        }
        let tag: u8 = b[offset];
        let len: usize = b[offset + 1] as usize;
        if remaining < 2 + len {
            return None;
        }
        let mut value: Vec<u8> = Vec::new();
        let mut i: usize = 0;
        while i < len
            invariant
                i <= len,
                offset + 2 + len <= b@.len(),
                b@.len() <= usize::MAX,
                value@ =~= b@.subrange(offset + 2, offset + 2 + i),
            decreases len - i,
        {
            value.push(b[offset + 2 + i]);
            proof {
                assert(value@ =~= b@.subrange(offset + 2, offset + 2 + i + 1));
            }
            i += 1;
        }
        let ghost prev_params: Seq<AppConfigTlv> = params@;
        proof {
            let cur = b@.skip(offset as int);
            assert(cur[0] == tag && cur[1] == len);
            assert(cur.subrange(2, 2 + len) =~= b@.subrange(offset + 2, offset + 2 + len));
            assert(cur.skip(2 + len) =~= b@.skip(offset + 2 + len));
        }
        params.push(AppConfigTlv { tag, value });
        proof {
            let cur = b@.skip(offset as int);
            assert(spec_tlv_views(params@) =~= spec_tlv_views(prev_params) + seq![
                (tag, value@),
            ]);
            if spec_tlvs_well_formed(orig, n as int) {
                assert(spec_parse_tlvs(cur, n - k) == seq![(cur[0], cur.subrange(2, 2 + cur[1]))]
                    + spec_parse_tlvs(cur.skip(2 + cur[1]), n - k - 1));
                assert(spec_parse_tlvs(orig, n as int) =~= spec_tlv_views(params@)
                    + spec_parse_tlvs(b@.skip(offset + 2 + len), n - (k + 1)));
            }
        }
        offset = offset + 2 + len;
        k += 1;
    }
    if offset != b.len() {
        return None;
    }
    proof {
        assert(b@.skip(offset as int) =~= Seq::<u8>::empty());
        if spec_tlvs_well_formed(orig, n as int) {
            assert(spec_parse_tlvs(orig, n as int) =~= spec_tlv_views(params@));
        }
    }
    Some(params)
}

/// Whether a complete control packet has the shape of a known command:
/// a recognized group and opcode pair with a well-formed payload.
pub open spec fn spec_control_well_formed(bytes: Seq<u8>) -> bool
    recommends
        bytes.len() >= 4,
{
    let gid = spec_gid_bits(bytes[0]);
    let oid = bytes[1] & 0x3f;
    let payload = bytes.skip(4);
    ||| (gid == 0 && oid == 0 && payload.len() == 1)
    ||| (gid == 0 && oid == 2 && payload.len() == 0)
    ||| (gid == 1 && oid == 0 && payload.len() == 5)
    ||| (gid == 1 && oid == 1 && payload.len() == 4)
    ||| (gid == 1 && oid == 3 && payload.len() >= 5 && spec_tlvs_well_formed(
        payload.skip(5),
        payload[4] as int,
    ))
    ||| (gid == 2 && oid == 0 && payload.len() == 4)
    ||| (gid == 2 && oid == 1 && payload.len() == 4)
}

/// Whether `cmd` is the typed reading of the control packet `bytes`.
pub open spec fn spec_command_matches(bytes: Seq<u8>, cmd: UciCommand) -> bool
    recommends
        bytes.len() >= 4,
{
    let gid = spec_gid_bits(bytes[0]);
    let oid = bytes[1] & 0x3f;
    let payload = bytes.skip(4);
    match cmd {
        UciCommand::DeviceReset => gid == 0 && oid == 0 && payload.len() == 1,
        UciCommand::GetDeviceInfo => gid == 0 && oid == 2 && payload.len() == 0,
        UciCommand::SessionInit { session_id, session_type } => gid == 1 && oid == 0
            && payload.len() == 5 && session_id == spec_u32_le(payload, 0) && session_type
            == payload[4],
        UciCommand::SessionDeinit { session_id } => gid == 1 && oid == 1 && payload.len() == 4
            && session_id == spec_u32_le(payload, 0),
        UciCommand::SessionSetAppConfig { session_id, params } => gid == 1 && oid == 3
            && payload.len() >= 5 && session_id == spec_u32_le(payload, 0)
            && spec_tlvs_well_formed(payload.skip(5), payload[4] as int) && spec_tlv_views(params@)
            == spec_parse_tlvs(payload.skip(5), payload[4] as int),
        UciCommand::SessionStart { session_id } => gid == 2 && oid == 0 && payload.len() == 4
            && session_id == spec_u32_le(payload, 0),
        UciCommand::SessionStop { session_id } => gid == 2 && oid == 1 && payload.len() == 4
            && session_id == spec_u32_le(payload, 0),
    }
}

/// Narrow a complete control packet to its typed command, when its
/// group, opcode and payload shape name one.
pub fn parse_control(bytes: &Vec<u8>) -> (r: Option<UciCommand>)
    requires
        bytes@.len() >= 4,
    ensures
        r is Some <==> spec_control_well_formed(bytes@),
        r matches Some(cmd) ==> spec_command_matches(bytes@, cmd),
{
    let gid: u8 = bytes[0] & 0xf;
    let oid: u8 = bytes[1] & 0x3f;
    let plen: usize = bytes.len() - 4;
    proof {
        assert(bytes@.skip(4).len() == plen);
        assert(forall|j: int| 0 <= j < plen ==> bytes@.skip(4)[j] == bytes@[j + 4]);
    }
    if gid == 0 && oid == 0 && plen == 1 {
        Some(UciCommand::DeviceReset)
    } else if gid == 0 && oid == 2 && plen == 0 {
        Some(UciCommand::GetDeviceInfo)
    } else if gid == 1 && oid == 0 && plen == 5 {
        let session_id: u32 = read_u32_le(bytes, 4);
        let session_type: u8 = bytes[8];
        proof {
            assert(spec_u32_le(bytes@.skip(4), 0) == spec_u32_le(bytes@, 4));
        }
        Some(UciCommand::SessionInit { session_id, session_type })
    } else if gid == 1 && oid == 1 && plen == 4 {
        let session_id: u32 = read_u32_le(bytes, 4);
        proof {
            assert(spec_u32_le(bytes@.skip(4), 0) == spec_u32_le(bytes@, 4));
        }
        Some(UciCommand::SessionDeinit { session_id })
    } else if gid == 1 && oid == 3 && plen >= 5 {
        let session_id: u32 = read_u32_le(bytes, 4);
        let n: u8 = bytes[8];
        proof {
            assert(spec_u32_le(bytes@.skip(4), 0) == spec_u32_le(bytes@, 4));
            assert(bytes@.skip(4).skip(5) =~= bytes@.skip(9));
        }
        match parse_tlvs(bytes, 9, n) {
            Some(params) => Some(UciCommand::SessionSetAppConfig { session_id, params }),
            None => None,
        }
    } else if gid == 2 && oid == 0 && plen == 4 {
        let session_id: u32 = read_u32_le(bytes, 4);
        proof {
            assert(spec_u32_le(bytes@.skip(4), 0) == spec_u32_le(bytes@, 4));
        }
        Some(UciCommand::SessionStart { session_id })
    } else if gid == 2 && oid == 1 && plen == 4 {
        let session_id: u32 = read_u32_le(bytes, 4);
        proof {
            assert(spec_u32_le(bytes@.skip(4), 0) == spec_u32_le(bytes@, 4));
        }
        Some(UciCommand::SessionStop { session_id })
    } else {
        None
    }
}

/// Whether a data packet is well formed: a twelve-byte prefix after the
/// header, carrying the session id and the destination address.
pub open spec fn spec_data_well_formed(bytes: Seq<u8>) -> bool
    recommends
        bytes.len() >= 4,
{
    bytes.len() >= 16
}

/// Whether `d` is the typed reading of the data packet `bytes`: the
/// session id, then an eight-byte extended destination address, then the
/// application payload.
pub open spec fn spec_data_matches(bytes: Seq<u8>, d: DataPacket) -> bool
    recommends
        bytes.len() >= 16,
{
    &&& d.session_id == spec_u32_le(bytes, 4)
    &&& d.destination == MacAddress::Extended(spec_u64_le(bytes, 8) as u64)
    &&& d.payload@ == bytes.skip(16)
}

/// Narrow a complete data packet to its typed form.
pub fn parse_data(bytes: &Vec<u8>) -> (r: Option<DataPacket>)
    requires
        bytes@.len() >= 4,
    ensures
        r is Some <==> spec_data_well_formed(bytes@),
        r matches Some(d) ==> spec_data_matches(bytes@, d),
{
    if bytes.len() < 16 {
        return None;
    }
    let session_id: u32 = read_u32_le(bytes, 4);
    let lo: u32 = read_u32_le(bytes, 8);
    let hi: u32 = read_u32_le(bytes, 12);
    let mac: u64 = lo as u64 + 0x100000000u64 * (hi as u64);
    let mut payload: Vec<u8> = Vec::new();
    let mut i: usize = 16;
    while i < bytes.len()
        invariant
            16 <= i <= bytes@.len(),
            payload@ =~= bytes@.subrange(16, i as int),
        decreases bytes@.len() - i,
    {
        payload.push(bytes[i]);
        proof {
            assert(payload@ =~= bytes@.subrange(16, i + 1));
        }
        i += 1;
    }
    proof {
        assert(payload@ =~= bytes@.skip(16));
    }
    Some(DataPacket { session_id, destination: MacAddress::Extended(mac), payload })
}

/// Group id a response is sent under.
pub open spec fn spec_response_gid(r: UciResponse) -> u8 {
    match r {
        UciResponse::DeviceReset { .. } => 0,
        UciResponse::GetDeviceInfo { .. } => 0,
        UciResponse::SessionInit { .. } => 1,
        UciResponse::SessionDeinit { .. } => 1,
        UciResponse::SessionSetAppConfig { .. } => 1,
        UciResponse::SessionStart { .. } => 2,
        UciResponse::SessionStop { .. } => 2,
    }
}

/// Opcode a response is sent under.
pub open spec fn spec_response_oid(r: UciResponse) -> u8 {
    match r {
        UciResponse::DeviceReset { .. } => 0,
        UciResponse::GetDeviceInfo { .. } => 2,
        UciResponse::SessionInit { .. } => 0,
        UciResponse::SessionDeinit { .. } => 1,
        UciResponse::SessionSetAppConfig { .. } => 3,
        UciResponse::SessionStart { .. } => 0,
        UciResponse::SessionStop { .. } => 1,
    }
}

/// Payload bytes of a response: the status, and for the device
/// information query the version words followed by an empty vendor
/// information list.
pub open spec fn spec_response_payload(r: UciResponse) -> Seq<u8> {
    match r {
        UciResponse::GetDeviceInfo {
            status,
            uci_version,
            mac_version,
            phy_version,
            uci_test_version,
        } => seq![spec_status_value(status)] + spec_le16(uci_version) + spec_le16(mac_version)
            + spec_le16(phy_version) + spec_le16(uci_test_version) + seq![0u8],
        _ => seq![spec_status_value(r.spec_status())],
    }
}

/// The complete logical response packet: response message type over the
/// response's group, its opcode, and the payload behind the four-byte
/// header. The length byte is informative; the transport rebuilds it for
/// every segment it writes.
pub open spec fn spec_encode_response(r: UciResponse) -> Seq<u8> {
    seq![
        (0x40 + spec_response_gid(r)) as u8,
        spec_response_oid(r),
        0u8,
        spec_response_payload(r).len() as u8,
    ] + spec_response_payload(r)
}

/// Serialize a response into a logical packet.
pub fn encode_response(r: &UciResponse) -> (out: Vec<u8>)
    ensures
        out@ == spec_encode_response(*r),
{
    let mut out: Vec<u8> = Vec::new();
    match r {
        UciResponse::GetDeviceInfo {
            status,
            uci_version,
            mac_version,
            phy_version,
            uci_test_version,
        } => {
            out.push(0x40);
            out.push(2);
            out.push(0);
            out.push(10);
            out.push(status_value(*status));
            push_le16(&mut out, *uci_version);
            push_le16(&mut out, *mac_version);
            push_le16(&mut out, *phy_version);
            push_le16(&mut out, *uci_test_version);
            out.push(0);
            proof {
                assert(out@ =~= spec_encode_response(*r));
            }
        }
        _ => {
            let gid: u8 = match r {
                UciResponse::DeviceReset { .. } => 0,
                UciResponse::GetDeviceInfo { .. } => 0,
                UciResponse::SessionInit { .. } => 1,
                UciResponse::SessionDeinit { .. } => 1,
                UciResponse::SessionSetAppConfig { .. } => 1,
                UciResponse::SessionStart { .. } => 2,
                UciResponse::SessionStop { .. } => 2,
            };
            let oid: u8 = match r {
                UciResponse::DeviceReset { .. } => 0,
                UciResponse::GetDeviceInfo { .. } => 2,
                UciResponse::SessionInit { .. } => 0,
                UciResponse::SessionDeinit { .. } => 1,
                UciResponse::SessionSetAppConfig { .. } => 3,
                UciResponse::SessionStart { .. } => 0,
                UciResponse::SessionStop { .. } => 1,
            };
            out.push(0x40 + gid);
            out.push(oid);
            out.push(0);
            out.push(1);
            out.push(status_value(r.status()));
            proof {
                assert(out@ =~= spec_encode_response(*r));
            }
        }
    }
    out
}

/// Serialized bytes of one measurement record.
pub open spec fn spec_measurement_bytes(m: ShortAddressTwoWayRangingMeasurement) -> Seq<u8> {
    spec_le16(m.mac_address) + seq![spec_status_value(m.status), m.nlos] + spec_le16(m.distance)
        + spec_le16(m.aoa_azimuth) + seq![m.aoa_azimuth_fom] + spec_le16(m.aoa_elevation) + seq![
        m.aoa_elevation_fom,
    ] + spec_le16(m.aoa_destination_azimuth) + seq![m.aoa_destination_azimuth_fom] + spec_le16(
        m.aoa_destination_elevation,
    ) + seq![m.aoa_destination_elevation_fom, m.slot_index, m.rssi]
}

/// Serialized bytes of a measurement list, in order.
pub open spec fn spec_measurements_bytes(ms: Seq<ShortAddressTwoWayRangingMeasurement>) -> Seq<u8>
    decreases ms.len(),
{
    if ms.len() == 0 {
        Seq::empty()
    } else {
        spec_measurement_bytes(ms[0]) + spec_measurements_bytes(ms.skip(1))
    }
}

/// Group id a notification is sent under.
pub open spec fn spec_notification_gid(n: UciNotification) -> u8 {
    match n {
        UciNotification::SessionStatus { .. } => 1,
        UciNotification::SessionInfo(..) => 2,
        UciNotification::DataCredit { .. } => 2,
    }
}

/// Opcode a notification is sent under.
pub open spec fn spec_notification_oid(n: UciNotification) -> u8 {
    match n {
        UciNotification::SessionStatus { .. } => 2,
        UciNotification::SessionInfo(..) => 0,
        UciNotification::DataCredit { .. } => 4,
    }
}

/// Payload bytes of a notification.
pub open spec fn spec_notification_payload(n: UciNotification) -> Seq<u8> {
    match n {
        UciNotification::SessionStatus { session_id, session_state, reason_code } => spec_le32(
            session_id,
        ) + seq![spec_session_state_value(session_state), spec_reason_code_value(reason_code)],
        UciNotification::SessionInfo(f) => spec_le32(f.sequence_number) + spec_le32(f.session_token)
            + seq![f.rcr_indicator] + spec_le32(f.current_ranging_interval) + seq![
            f.two_way_ranging_measurements@.len() as u8,
        ] + spec_measurements_bytes(f.two_way_ranging_measurements@),
        UciNotification::DataCredit { session_id, credit_availability } => spec_le32(session_id)
            + seq![credit_availability],
    }
}

/// The complete logical notification packet. The length byte keeps the
/// low eight bits of the payload length; the transport rebuilds it for
/// every segment it writes.
pub open spec fn spec_encode_notification(n: UciNotification) -> Seq<u8> {
    seq![
        (0x60 + spec_notification_gid(n)) as u8,
        spec_notification_oid(n),
        0u8,
        (spec_notification_payload(n).len() % 256) as u8,
    ] + spec_notification_payload(n)
}

/// Serialize one measurement record.
fn push_measurement(out: &mut Vec<u8>, m: &ShortAddressTwoWayRangingMeasurement)
    ensures
        final(out)@ == old(out)@ + spec_measurement_bytes(*m),
{
    push_le16(out, m.mac_address);
    out.push(status_value(m.status));
    out.push(m.nlos);
    push_le16(out, m.distance);
    push_le16(out, m.aoa_azimuth);
    out.push(m.aoa_azimuth_fom);
    push_le16(out, m.aoa_elevation);
    out.push(m.aoa_elevation_fom);
    push_le16(out, m.aoa_destination_azimuth);
    out.push(m.aoa_destination_azimuth_fom);
    push_le16(out, m.aoa_destination_elevation);
    out.push(m.aoa_destination_elevation_fom);
    out.push(m.slot_index);
    out.push(m.rssi);
    proof {
        assert(out@ =~= old(out)@ + spec_measurement_bytes(*m));
    }
}

/// Serialize a notification into a logical packet. A measurement list
/// is capped by its one-byte count on the wire.
pub fn encode_notification(n: &UciNotification) -> (out: Vec<u8>)
    requires
        n matches UciNotification::SessionInfo(f) ==> f.two_way_ranging_measurements@.len() <= 255,
    ensures
        out@ == spec_encode_notification(*n),
{
    let mut payload: Vec<u8> = Vec::new();
    let gid: u8;
    let oid: u8;
    match n {
        UciNotification::SessionStatus { session_id, session_state, reason_code } => {
            gid = 1;
            oid = 2;
            push_le32(&mut payload, *session_id);
            payload.push(session_state_value(*session_state));
            payload.push(reason_code_value(*reason_code));
            proof {
                assert(payload@ =~= spec_notification_payload(*n));
            }
        }
        UciNotification::SessionInfo(f) => {
            gid = 2;
            oid = 0;
            push_le32(&mut payload, f.sequence_number);
            push_le32(&mut payload, f.session_token);
            payload.push(f.rcr_indicator);
            push_le32(&mut payload, f.current_ranging_interval);
            payload.push(f.two_way_ranging_measurements.len() as u8);
            let ghost head: Seq<u8> = payload@;
            let ghost ms: Seq<ShortAddressTwoWayRangingMeasurement> =
                f.two_way_ranging_measurements@;
            let mut i: usize = 0;
            while i < f.two_way_ranging_measurements.len()
                invariant
                    i <= ms.len(),
                    ms == f.two_way_ranging_measurements@,
                    payload@ =~= head + spec_measurements_bytes(ms.take(i as int)),
                decreases ms.len() - i,
            {
                push_measurement(&mut payload, &f.two_way_ranging_measurements[i]);
                proof {
                    lemma_measurements_bytes_snoc(ms, i as int);
                }
                i += 1;
            }
            proof {
                assert(ms.take(ms.len() as int) =~= ms);
                assert(payload@ =~= spec_notification_payload(*n));
            }
        }
        UciNotification::DataCredit { session_id, credit_availability } => {
            gid = 2;
            oid = 4;
            push_le32(&mut payload, *session_id);
            payload.push(*credit_availability);
            proof {
                assert(payload@ =~= spec_notification_payload(*n));
            }
        }
    }
    let mut out: Vec<u8> = Vec::new();
    out.push(0x60 + gid);
    out.push(oid);
    out.push(0);
    out.push((payload.len() % 256) as u8);
    let mut j: usize = 0;
    while j < payload.len()
        invariant
            j <= payload@.len(),
            out@ =~= seq![
                (0x60 + spec_notification_gid(*n)) as u8,
                spec_notification_oid(*n),
                0u8,
                (spec_notification_payload(*n).len() % 256) as u8,
            ] + payload@.take(j as int),
            payload@ == spec_notification_payload(*n),
            spec_notification_gid(*n) == gid,
            spec_notification_oid(*n) == oid,
        decreases payload@.len() - j,
    {
        let b: u8 = payload[j];
        out.push(b);
        j += 1;
    }
    proof {
        assert(payload@.take(payload@.len() as int) =~= payload@);
        assert(out@ =~= spec_encode_notification(*n));
    }
    out
}

/// Appending one more measurement extends the serialized list by that
/// measurement's bytes.
proof fn lemma_measurements_bytes_snoc(ms: Seq<ShortAddressTwoWayRangingMeasurement>, i: int)
    requires
        0 <= i < ms.len(),
    ensures
        spec_measurements_bytes(ms.take(i + 1)) == spec_measurements_bytes(ms.take(i))
            + spec_measurement_bytes(ms[i]),
    decreases i,
{
    if i == 0 {
        assert(ms.take(1)[0] == ms[0]);
        assert(ms.take(1).skip(1) =~= Seq::<ShortAddressTwoWayRangingMeasurement>::empty());
        assert(ms.take(0) =~= Seq::<ShortAddressTwoWayRangingMeasurement>::empty());
        assert(spec_measurements_bytes(Seq::<ShortAddressTwoWayRangingMeasurement>::empty())
            == Seq::<u8>::empty());
        assert(spec_measurements_bytes(ms.take(1)) =~= spec_measurement_bytes(ms[0]));
    } else {
        lemma_measurements_bytes_snoc(ms.skip(1), i - 1);
        assert(ms.take(i + 1)[0] == ms[0]);
        assert(ms.take(i + 1).skip(1) =~= ms.skip(1).take(i));
        assert(ms.take(i)[0] == ms[0]);
        assert(ms.take(i).skip(1) =~= ms.skip(1).take(i - 1));
        assert(ms.skip(1)[i - 1] == ms[i]);
        assert(spec_measurements_bytes(ms.take(i + 1)) == spec_measurement_bytes(ms[0])
            + spec_measurements_bytes(ms.skip(1).take(i)));
        assert(spec_measurements_bytes(ms.take(i)) == spec_measurement_bytes(ms[0])
            + spec_measurements_bytes(ms.skip(1).take(i - 1)));
        assert(spec_measurement_bytes(ms[0]) + (spec_measurements_bytes(ms.skip(1).take(i - 1))
            + spec_measurement_bytes(ms[i])) =~= (spec_measurement_bytes(ms[0])
            + spec_measurements_bytes(ms.skip(1).take(i - 1))) + spec_measurement_bytes(ms[i]));
    }
}

} // verus!


