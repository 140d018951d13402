//! Ranging sessions: the per-session configuration bag and the session
//! record with its lifecycle state.
//!
//! Configuration arrives as type/length/value entries. The entries the
//! emulator acts on are: device type (accepted, not tracked), ranging
//! round usage, channel number, the session's own short address, the
//! destination address list, the ranging interval in milliseconds, the
//! measurement notification policy, and the device role.

use crate::mac_address::MacAddress;
use crate::uci::{AppConfigTlv, DeviceRole, RangeDataNtfConfig, SessionState};
use vstd::prelude::*;

verus! {

/// Configuration tag: device type.
pub const TAG_DEVICE_TYPE: u8 = 0x00;

/// Configuration tag: ranging round usage.
pub const TAG_RANGING_ROUND_USAGE: u8 = 0x01;

/// Configuration tag: channel number.
pub const TAG_CHANNEL_NUMBER: u8 = 0x04;

/// Configuration tag: the session's own short address.
pub const TAG_DEVICE_MAC_ADDRESS: u8 = 0x06;

/// Configuration tag: destination short address list.
pub const TAG_DST_MAC_ADDRESS: u8 = 0x07;

/// Configuration tag: ranging interval in milliseconds.
pub const TAG_RANGING_DURATION: u8 = 0x09;

/// Configuration tag: measurement notification policy.
pub const TAG_SESSION_INFO_NTF_CONFIG: u8 = 0x0e;

/// Configuration tag: device role.
pub const TAG_DEVICE_ROLE: u8 = 0x11;

/// Default ranging interval in milliseconds.
pub const DEFAULT_RANGING_INTERVAL: u32 = 200;

/// Default channel number.
pub const DEFAULT_CHANNEL_NUMBER: u8 = 9;

/// Default ranging round usage.
pub const DEFAULT_RANGING_ROUND_USAGE: u8 = 2;

/// The per-session configuration bag.
#[derive(Clone, Debug)]
pub struct AppConfig {
    /// The short address this session answers under, once configured.
    pub device_mac_address: Option<MacAddress>,
    /// The peers this session ranges toward.
    pub dst_mac_addresses: Vec<MacAddress>,
    /// Milliseconds between ranging rounds.
    pub ranging_interval_ms: u32,
    /// Whether measurements are reported to the host.
    pub range_data_ntf_config: RangeDataNtfConfig,
    /// The role this session plays.
    pub device_role: DeviceRole,
    /// Radio channel shared by both ends of a round.
    pub channel_number: u8,
    /// Ranging method shared by both ends of a round.
    pub ranging_round_usage: u8,
}

/// Mathematical shadow of `AppConfig`.
pub ghost struct AppConfigModel {
    pub device_mac_address: Option<MacAddress>,
    pub dst_mac_addresses: Seq<MacAddress>,
    pub ranging_interval_ms: u32,
    pub range_data_ntf_config: RangeDataNtfConfig,
    pub device_role: DeviceRole,
    pub channel_number: u8,
    pub ranging_round_usage: u8,
}

impl View for AppConfig {
    type V = AppConfigModel;

    open spec fn view(&self) -> AppConfigModel {
        AppConfigModel {
            device_mac_address: self.device_mac_address,
            dst_mac_addresses: self.dst_mac_addresses@,
            ranging_interval_ms: self.ranging_interval_ms,
            range_data_ntf_config: self.range_data_ntf_config,
            device_role: self.device_role,
            channel_number: self.channel_number,
            ranging_round_usage: self.ranging_round_usage,
        }
    }
}

/// The configuration a fresh session starts from.
pub open spec fn spec_default_app_config() -> AppConfigModel {
    AppConfigModel {
        device_mac_address: None,
        dst_mac_addresses: Seq::empty(),
        ranging_interval_ms: DEFAULT_RANGING_INTERVAL,
        range_data_ntf_config: RangeDataNtfConfig::Enable,
        device_role: DeviceRole::Responder,
        channel_number: DEFAULT_CHANNEL_NUMBER,
        ranging_round_usage: DEFAULT_RANGING_ROUND_USAGE,
    }
}

impl AppConfig {
    /// The configuration a fresh session starts from.
    pub fn new_default() -> (r: AppConfig)
        ensures
            r@ == spec_default_app_config(),
    {
        let r = AppConfig {
            device_mac_address: None,
            dst_mac_addresses: Vec::new(),
            ranging_interval_ms: DEFAULT_RANGING_INTERVAL,
            range_data_ntf_config: RangeDataNtfConfig::Enable,
            device_role: DeviceRole::Responder,
            channel_number: DEFAULT_CHANNEL_NUMBER,
            ranging_round_usage: DEFAULT_RANGING_ROUND_USAGE,
        };
        proof {
            assert(r@.dst_mac_addresses =~= Seq::<MacAddress>::empty());
        }
        r
    }

    /// Whether the keys a session must have before it can leave `Init`
    /// are present: its own address and at least one destination.
    pub open spec fn spec_is_complete(m: AppConfigModel) -> bool {
        m.device_mac_address is Some && m.dst_mac_addresses.len() > 0
    }

    /// Whether the keys a session must have before it can leave `Init`
    /// are present.
    pub fn is_complete(&self) -> (r: bool)
        ensures
            r == AppConfig::spec_is_complete(self@),
    {
        self.device_mac_address.is_some() && self.dst_mac_addresses.len() > 0
    }

    /// Whether this session's configuration lets it range with a peer
    /// session's: same channel, same method, same interval, and the
    /// peer lists this session's address among its destinations.
    pub open spec fn spec_compatible_with(m: AppConfigModel, peer: AppConfigModel) -> bool {
        &&& m.channel_number == peer.channel_number
        &&& m.ranging_round_usage == peer.ranging_round_usage
        &&& m.ranging_interval_ms == peer.ranging_interval_ms
        &&& match m.device_mac_address {
            Some(own) => peer.dst_mac_addresses.contains(own),
            None => false,
        }
    }

    /// Whether this session's configuration lets it range with a peer
    /// session's.
    pub fn can_start_ranging_with_peer(&self, peer: &AppConfig) -> (r: bool)
        ensures
            r == AppConfig::spec_compatible_with(self@, peer@),
    {
        if self.channel_number != peer.channel_number {
            return false;
        }
        if self.ranging_round_usage != peer.ranging_round_usage {
            return false;
        }
        if self.ranging_interval_ms != peer.ranging_interval_ms {
            return false;
        }
        match self.device_mac_address {
            None => false,
            Some(own) => own.is_in(&peer.dst_mac_addresses),
        }
    }
}

/// Whether one configuration entry is acceptable: a known tag with a
/// value of the right size and range.
pub open spec fn spec_tlv_valid(tag: u8, value: Seq<u8>) -> bool {
    if tag == TAG_DEVICE_TYPE {
        value.len() == 1
    } else if tag == TAG_RANGING_ROUND_USAGE {
        value.len() == 1
    } else if tag == TAG_CHANNEL_NUMBER {
        value.len() == 1
    } else if tag == TAG_DEVICE_MAC_ADDRESS {
        value.len() == 2
    } else if tag == TAG_DST_MAC_ADDRESS {
        value.len() % 2 == 0
    } else if tag == TAG_RANGING_DURATION {
        value.len() == 4
    } else if tag == TAG_SESSION_INFO_NTF_CONFIG {
        value.len() == 1 && value[0] <= 1
    } else if tag == TAG_DEVICE_ROLE {
        value.len() == 1 && value[0] <= 1
    } else {
        false
    }
}

/// The short addresses held pairwise little-endian in `value`.
pub open spec fn spec_mac_list(value: Seq<u8>) -> Seq<MacAddress> {
    Seq::new((value.len() / 2) as nat, |i: int| MacAddress::Short(
        (value[2 * i] + 0x100 * value[2 * i + 1]) as u16,
    ))
}

/// The configuration after one acceptable entry is merged in.
pub open spec fn spec_apply_tlv(m: AppConfigModel, tag: u8, value: Seq<u8>) -> AppConfigModel
    recommends
        spec_tlv_valid(tag, value),
{
    if tag == TAG_RANGING_ROUND_USAGE {
        AppConfigModel { ranging_round_usage: value[0], ..m }
    } else if tag == TAG_CHANNEL_NUMBER {
        AppConfigModel { channel_number: value[0], ..m }
    } else if tag == TAG_DEVICE_MAC_ADDRESS {
        AppConfigModel {
            device_mac_address: Some(MacAddress::Short((value[0] + 0x100 * value[1]) as u16)),
            ..m
        }
    } else if tag == TAG_DST_MAC_ADDRESS {
        AppConfigModel { dst_mac_addresses: spec_mac_list(value), ..m }
    } else if tag == TAG_RANGING_DURATION {
        AppConfigModel {
            ranging_interval_ms: (value[0] + 0x100 * value[1] + 0x10000 * value[2] + 0x1000000
                * value[3]) as u32,
            ..m
        }
    } else if tag == TAG_SESSION_INFO_NTF_CONFIG {
        AppConfigModel {
            range_data_ntf_config: if value[0] == 0 {
                RangeDataNtfConfig::Disable
            } else {
                RangeDataNtfConfig::Enable
            },
            ..m
        }
    } else if tag == TAG_DEVICE_ROLE {
        AppConfigModel {
            device_role: if value[0] == 0 {
                DeviceRole::Responder
            } else {
                DeviceRole::Initiator
            },
            ..m
        }
    } else {
        m
    }
}

/// The configuration after a whole entry list is merged, in order.
pub open spec fn spec_apply_tlvs(m: AppConfigModel, tlvs: Seq<AppConfigTlv>) -> AppConfigModel
    decreases tlvs.len(),
{
    if tlvs.len() == 0 {
        m
    } else {
        spec_apply_tlvs(spec_apply_tlv(m, tlvs[0].tag, tlvs[0].value@), tlvs.skip(1))
    }
}

/// Whether every entry of the list is acceptable.
pub open spec fn spec_tlvs_valid(tlvs: Seq<AppConfigTlv>) -> bool {
    forall|i: int| 0 <= i < tlvs.len() ==> spec_tlv_valid(tlvs[i].tag, #[trigger] tlvs[i].value@)
}

/// Whether every entry of the list is acceptable: a known tag with a
/// value of the right size and range.
pub fn tlvs_valid(params: &Vec<AppConfigTlv>) -> (r: bool)
    ensures
        r == spec_tlvs_valid(params@),
{
    let mut k: usize = 0;
    while k < params.len()
        invariant
            k <= params@.len(),
            forall|i: int|
                0 <= i < k ==> spec_tlv_valid(params@[i].tag, #[trigger] params@[i].value@),
        decreases params@.len() - k,
    {
        let tlv = &params[k];
        let valid: bool = if tlv.tag == TAG_DEVICE_TYPE {
            tlv.value.len() == 1
        } else if tlv.tag == TAG_RANGING_ROUND_USAGE {
            tlv.value.len() == 1
        } else if tlv.tag == TAG_CHANNEL_NUMBER {
            tlv.value.len() == 1
        } else if tlv.tag == TAG_DEVICE_MAC_ADDRESS {
            tlv.value.len() == 2
        } else if tlv.tag == TAG_DST_MAC_ADDRESS {
            tlv.value.len() % 2 == 0
        } else if tlv.tag == TAG_RANGING_DURATION {
            tlv.value.len() == 4
        } else if tlv.tag == TAG_SESSION_INFO_NTF_CONFIG {
            tlv.value.len() == 1 && tlv.value[0] <= 1
        } else if tlv.tag == TAG_DEVICE_ROLE {
            tlv.value.len() == 1 && tlv.value[0] <= 1
        } else {
            false
        };
        if !valid {
            proof {
                assert(!spec_tlv_valid(params@[k as int].tag, params@[k as int].value@));
                assert(!spec_tlvs_valid(params@));
            }
            return false;
        }
        k += 1;
    }
    true
}

impl AppConfig {
    /// Merge a list of acceptable configuration entries, in order.
    pub fn apply(&mut self, params: &Vec<AppConfigTlv>)
        requires
            spec_tlvs_valid(params@),
        ensures
            final(self)@ == spec_apply_tlvs(old(self)@, params@),
    {
        let ghost orig: AppConfigModel = self@;
        proof {
            assert(params@.skip(0) =~= params@);
        }
        let mut k2: usize = 0;
        while k2 < params.len()
            invariant
                k2 <= params@.len(),
                spec_tlvs_valid(params@),
                spec_apply_tlvs(orig, params@) == spec_apply_tlvs(self@, params@.skip(k2 as int)),
            decreases params@.len() - k2,
        {
            let ghost before: AppConfigModel = self@;
            let tlv = &params[k2];
            self.apply_one(tlv);
            proof {
                assert(params@.skip(k2 as int)[0] == params@[k2 as int]);
                assert(params@.skip(k2 as int).skip(1) =~= params@.skip(k2 + 1));
                assert(spec_apply_tlvs(before, params@.skip(k2 as int)) == spec_apply_tlvs(
                    spec_apply_tlv(before, params@[k2 as int].tag, params@[k2 as int].value@),
                    params@.skip(k2 + 1),
                ));
            }
            k2 += 1;
        }
        proof {
            assert(params@.skip(params@.len() as int) =~= Seq::<AppConfigTlv>::empty());
            assert(spec_apply_tlvs(self@, Seq::<AppConfigTlv>::empty()) == self@);
        }
    }

    /// Merge one acceptable configuration entry.
    fn apply_one(&mut self, tlv: &AppConfigTlv)
        requires
            spec_tlv_valid(tlv.tag, tlv.value@),
        ensures
            final(self)@ == spec_apply_tlv(old(self)@, tlv.tag, tlv.value@),
    {
        if tlv.tag == TAG_RANGING_ROUND_USAGE {
            self.ranging_round_usage = tlv.value[0];
        } else if tlv.tag == TAG_CHANNEL_NUMBER {
            self.channel_number = tlv.value[0];
        } else if tlv.tag == TAG_DEVICE_MAC_ADDRESS {
            self.device_mac_address = Some(
                MacAddress::Short(tlv.value[0] as u16 + 0x100 * (tlv.value[1] as u16)),
            );
        } else if tlv.tag == TAG_DST_MAC_ADDRESS {
            let mut list: Vec<MacAddress> = Vec::new();
            let mut i: usize = 0;
            let n: usize = tlv.value.len() / 2;
            proof {
                vstd::arithmetic::div_mod::lemma_fundamental_div_mod(tlv.value@.len() as int, 2);
            }
            while i < n
                invariant
                    i <= n,
                    n == tlv.value@.len() / 2,
                    2 * n == tlv.value@.len(),
                    tlv.value@.len() <= usize::MAX,
                    list@.len() == i,
                    forall|j: int| 0 <= j < i ==> list@[j] == spec_mac_list(tlv.value@)[j],
                decreases n - i,
            {
                let lo: u16 = tlv.value[2 * i] as u16;
                let hi: u16 = tlv.value[2 * i + 1] as u16;
                list.push(MacAddress::Short(lo + 0x100 * hi));
                i += 1;
            }
            proof {
                assert(list@ =~= spec_mac_list(tlv.value@));
            }
            self.dst_mac_addresses = list;
        } else if tlv.tag == TAG_RANGING_DURATION {
            self.ranging_interval_ms = tlv.value[0] as u32 + 0x100 * (tlv.value[1] as u32) + 0x10000
                * (tlv.value[2] as u32) + 0x1000000 * (tlv.value[3] as u32);
        } else if tlv.tag == TAG_SESSION_INFO_NTF_CONFIG {
            self.range_data_ntf_config = if tlv.value[0] == 0 {
                RangeDataNtfConfig::Disable
            } else {
                RangeDataNtfConfig::Enable
            };
        } else if tlv.tag == TAG_DEVICE_ROLE {
            self.device_role = if tlv.value[0] == 0 {
                DeviceRole::Responder
            } else {
                DeviceRole::Initiator
            };
        }
    }
}

/// One ranging session of a device.
#[derive(Clone, Debug)]
pub struct Session {
    /// The identifier the host assigned.
    pub id: u32,
    /// Lifecycle state.
    pub state: SessionState,
    /// The session type requested at creation.
    pub session_type: u8,
    /// The configuration bag.
    pub app_config: AppConfig,
    /// Sequence number of the next measurement notification.
    pub sequence_number: u32,
    /// Whether a periodic ranging timer is scheduled for this session.
    pub ranging_task: bool,
}

impl Session {
    /// A ranging timer is scheduled exactly while the session is active.
    pub open spec fn wf(self) -> bool {
        self.ranging_task <==> self.state == SessionState::SessionStateActive
    }

    /// A fresh session in the `Init` state.
    pub fn new(id: u32, session_type: u8) -> (r: Session)
        ensures
            r.id == id,
            r.session_type == session_type,
            r.state == SessionState::SessionStateInit,
            r.sequence_number == 0,
            r.ranging_task == false,
            r.app_config@ == spec_default_app_config(),
            r.wf(),
    {
        Session {
            id,
            state: SessionState::SessionStateInit,
            session_type,
            app_config: AppConfig::new_default(),
            sequence_number: 0,
            ranging_task: false,
        }
    }
}

} // verus!
