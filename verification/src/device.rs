//! Devices: the per-device controller state, its session table, and the
//! handlers for the host commands that drive the session lifecycle.
//!
//! Two invariants hold at every step: the controller is `Active` exactly
//! while at least one session is, and `n_active_sessions` always equals
//! the number of sessions in the active state.

use crate::mac_address::MacAddress;
use crate::position::Position;
use crate::session::{AppConfig, Session};
use crate::uci::{
    DeviceState, ReasonCode, SessionState, StatusCode, UciCommand, UciNotification, UciResponse,
};
use vstd::prelude::*;

verus! {

/// Most sessions one device can hold at a time.
pub const MAX_SESSION: usize = 255;

/// Most devices the emulator serves at a time.
pub const MAX_DEVICE: usize = 128;

/// Version word the device information query reports.
pub const UCI_VERSION: u16 = 0x0002;

/// Version word the device information query reports.
pub const MAC_VERSION: u16 = 0x0002;

/// Version word the device information query reports.
pub const PHY_VERSION: u16 = 0x0002;

/// Version word the device information query reports.
pub const UCI_TEST_VERSION: u16 = 0x0001;

/// A timer action the embedding runtime must carry out: schedule or
/// cancel the periodic ranging tick of one session.
#[derive(Clone, Copy, PartialEq, Eq, Structural, Debug)]
pub enum TimerOp {
    Start { session_id: u32, interval_ms: u32 },
    Stop { session_id: u32 },
}

/// Everything one command produced: the response owed to the host, the
/// notifications to push after it, and the timer work for the runtime.
#[derive(Debug)]
pub struct CommandOutcome {
    pub response: UciResponse,
    pub notifications: Vec<UciNotification>,
    pub timer_ops: Vec<TimerOp>,
}

/// How many of the sessions are active.
pub open spec fn spec_active_count(s: Seq<Session>) -> int
    decreases s.len(),
{
    if s.len() == 0 {
        0
    } else {
        spec_active_count(s.skip(1)) + if s[0].state == SessionState::SessionStateActive {
            1int
        } else {
            0int
        }
    }
}

/// The active-session count of a longer table grows by the new entry.
proof fn lemma_active_count_push(s: Seq<Session>, x: Session)
    ensures
        spec_active_count(s.push(x)) == spec_active_count(s) + if x.state
            == SessionState::SessionStateActive {
            1int
        } else {
            0int
        },
    decreases s.len(),
{
    if s.len() == 0 {
        assert(s.push(x)[0] == x);
        assert(s.push(x).skip(1) =~= Seq::<Session>::empty());
        assert(spec_active_count(Seq::<Session>::empty()) == 0);
    } else {
        lemma_active_count_push(s.skip(1), x);
        assert(s.push(x)[0] == s[0]);
        assert(s.push(x).skip(1) =~= s.skip(1).push(x));
    }
}

/// Replacing one entry changes the active-session count by the
/// difference the two entries make.
pub(crate) proof fn lemma_active_count_update(s: Seq<Session>, i: int, x: Session)
    requires
        0 <= i < s.len(),
    ensures
        spec_active_count(s.update(i, x)) == spec_active_count(s) + (if x.state
            == SessionState::SessionStateActive {
            1int
        } else {
            0int
        }) - (if s[i].state == SessionState::SessionStateActive {
            1int
        } else {
            0int
        }),
    decreases s.len(),
{
    if i == 0 {
        assert(s.update(0, x)[0] == x);
        assert(s.update(0, x).skip(1) =~= s.skip(1));
    } else {
        lemma_active_count_update(s.skip(1), i - 1, x);
        assert(s.update(i, x)[0] == s[0]);
        assert(s.update(i, x).skip(1) =~= s.skip(1).update(i - 1, x));
    }
}

/// Removing one entry lowers the active-session count by what the
/// entry contributed.
proof fn lemma_active_count_remove(s: Seq<Session>, i: int)
    requires
        0 <= i < s.len(),
    ensures
        spec_active_count(s.remove(i)) == spec_active_count(s) - if s[i].state
            == SessionState::SessionStateActive {
            1int
        } else {
            0int
        },
    decreases s.len(),
{
    if i == 0 {
        assert(s.remove(0) =~= s.skip(1));
    } else {
        lemma_active_count_remove(s.skip(1), i - 1);
        assert(s.remove(i)[0] == s[0]);
        assert(s.remove(i).skip(1) =~= s.skip(1).remove(i - 1));
    }
}

/// An active entry keeps the count positive.
proof fn lemma_active_count_at_least_one(s: Seq<Session>, i: int)
    requires
        0 <= i < s.len(),
        s[i].state == SessionState::SessionStateActive,
    ensures
        spec_active_count(s) >= 1,
    decreases s.len(),
{
    lemma_active_count_nonneg(s.skip(1));
    if i > 0 {
        lemma_active_count_at_least_one(s.skip(1), i - 1);
    }
}

/// The count never goes negative.
proof fn lemma_active_count_nonneg(s: Seq<Session>)
    ensures
        spec_active_count(s) >= 0,
    decreases s.len(),
{
    if s.len() > 0 {
        lemma_active_count_nonneg(s.skip(1));
    }
}

/// The count never exceeds the table length.
proof fn lemma_active_count_le_len(s: Seq<Session>)
    ensures
        spec_active_count(s) <= s.len(),
    decreases s.len(),
{
    if s.len() > 0 {
        lemma_active_count_le_len(s.skip(1));
    }
}

/// An empty count means no entry is active.
proof fn lemma_active_count_zero(s: Seq<Session>)
    requires
        spec_active_count(s) == 0,
    ensures
        forall|i: int| 0 <= i < s.len() ==> s[i].state != SessionState::SessionStateActive,
    decreases s.len(),
{
    if s.len() > 0 {
        lemma_active_count_nonneg(s.skip(1));
        lemma_active_count_zero(s.skip(1));
        assert forall|i: int|
            0 <= i < s.len() implies s[i].state != SessionState::SessionStateActive by {
            if i > 0 {
                assert(s.skip(1)[i - 1] == s[i]);
            }
        }
    }
}

/// One virtual controller with its host-visible state.
pub struct Device {
    /// Identifier assigned at connect time, unique per run.
    pub handle: usize,
    /// The address the device answers under.
    pub mac_address: MacAddress,
    /// Where the device stands.
    pub position: Position,
    /// Controller state.
    pub state: DeviceState,
    /// The session table.
    pub sessions: Vec<Session>,
    /// How many sessions are active right now.
    pub n_active_sessions: usize,
}

impl Device {
    /// No two sessions share an identifier.
    pub open spec fn spec_ids_unique(s: Seq<Session>) -> bool {
        forall|i: int, j: int|
            0 <= i < j < s.len() ==> (#[trigger] s[i].id) != (#[trigger] s[j].id)
    }

    /// The device invariant: a bounded table of well-formed sessions
    /// with unique identifiers, an exact active count, and a controller
    /// state that mirrors whether any session is active.
    pub open spec fn wf(self) -> bool {
        &&& self.sessions@.len() <= MAX_SESSION
        &&& Device::spec_ids_unique(self.sessions@)
        &&& (forall|i: int| 0 <= i < self.sessions@.len() ==> (#[trigger] self.sessions@[i]).wf())
        &&& self.n_active_sessions == spec_active_count(self.sessions@)
        &&& (self.state == DeviceState::DeviceStateActive <==> self.n_active_sessions > 0)
    }

    /// Whether a session with this identifier exists.
    pub open spec fn spec_has_session(self, session_id: u32) -> bool {
        exists|i: int| 0 <= i < self.sessions@.len() && (#[trigger] self.sessions@[i]).id
            == session_id
    }

    /// The index of the session with this identifier.
    pub open spec fn spec_session_index(self, session_id: u32) -> int {
        choose|i: int| 0 <= i < self.sessions@.len() && (#[trigger] self.sessions@[i]).id
            == session_id
    }

    /// The session with this identifier.
    pub open spec fn spec_session(self, session_id: u32) -> Session {
        self.sessions@[self.spec_session_index(session_id)]
    }

    /// A fresh device in the ready state with an empty session table.
    pub fn new(handle: usize, mac_address: MacAddress, position: Position) -> (r: Device)
        ensures
            r.handle == handle,
            r.mac_address == mac_address,
            r.position == position,
            r.state == DeviceState::DeviceStateReady,
            r.sessions@.len() == 0,
            r.n_active_sessions == 0,
            r.wf(),
    {
        let d = Device {
            handle,
            mac_address,
            position,
            state: DeviceState::DeviceStateReady,
            sessions: Vec::new(),
            n_active_sessions: 0,
        };
        proof {
            assert(spec_active_count(d.sessions@) == 0);
        }
        d
    }

    /// The handle, address and position a command never touches.
    pub open spec fn spec_same_identity(pre: Device, post: Device) -> bool {
        &&& post.handle == pre.handle
        &&& post.mac_address == pre.mac_address
        &&& post.position == pre.position
    }

    /// The controller state a session count dictates.
    pub open spec fn spec_state_for_count(n: int) -> DeviceState {
        if n > 0 {
            DeviceState::DeviceStateActive
        } else {
            DeviceState::DeviceStateReady
        }
    }

    /// What creating a session does: a duplicate identifier or a full
    /// table is refused and changes nothing; otherwise a fresh session
    /// in `Init` joins the table and its status is announced.
    pub open spec fn spec_session_init_transition(
        pre: Device,
        post: Device,
        session_id: u32,
        session_type: u8,
        outcome: CommandOutcome,
    ) -> bool {
        &&& Device::spec_same_identity(pre, post)
        &&& if pre.spec_has_session(session_id) {
            &&& post == pre
            &&& outcome.response == (UciResponse::SessionInit {
                status: StatusCode::UciStatusSessionDuplicate,
            })
            &&& outcome.notifications@.len() == 0
            &&& outcome.timer_ops@.len() == 0
        } else if pre.sessions@.len() >= MAX_SESSION {
            &&& post == pre
            &&& outcome.response == (UciResponse::SessionInit {
                status: StatusCode::UciStatusMaxSessionsExceeded,
            })
            &&& outcome.notifications@.len() == 0
            &&& outcome.timer_ops@.len() == 0
        } else {
            &&& post.sessions@.len() == pre.sessions@.len() + 1
            &&& post.sessions@.take(pre.sessions@.len() as int) == pre.sessions@
            &&& post.sessions@.last().id == session_id
            &&& post.sessions@.last().state == SessionState::SessionStateInit
            &&& post.sessions@.last().session_type == session_type
            &&& post.sessions@.last().sequence_number == 0
            &&& post.sessions@.last().ranging_task == false
            &&& post.sessions@.last().app_config@
                == crate::session::spec_default_app_config()
            &&& post.state == pre.state
            &&& post.n_active_sessions == pre.n_active_sessions
            &&& outcome.response == (UciResponse::SessionInit {
                status: StatusCode::UciStatusOk,
            })
            &&& outcome.notifications@ == seq![
                UciNotification::SessionStatus {
                    session_id,
                    session_state: SessionState::SessionStateInit,
                    reason_code: ReasonCode::StateChangeWithSessionManagementCommands,
                },
            ]
            &&& outcome.timer_ops@.len() == 0
        }
    }

    /// What removing a session does: an unknown identifier is refused;
    /// otherwise the session leaves the table, its timer is cancelled if
    /// it was active, the counters follow, and the removal is announced.
    pub open spec fn spec_session_deinit_transition(
        pre: Device,
        post: Device,
        session_id: u32,
        outcome: CommandOutcome,
    ) -> bool {
        &&& Device::spec_same_identity(pre, post)
        &&& if !pre.spec_has_session(session_id) {
            &&& post == pre
            &&& outcome.response == (UciResponse::SessionDeinit {
                status: StatusCode::UciStatusSessionNotExist,
            })
            &&& outcome.notifications@.len() == 0
            &&& outcome.timer_ops@.len() == 0
        } else {
            let k = pre.spec_session_index(session_id);
            let was_active = pre.sessions@[k].state == SessionState::SessionStateActive;
            &&& post.sessions@ == pre.sessions@.remove(k)
            &&& post.n_active_sessions == pre.n_active_sessions - (if was_active {
                1int
            } else {
                0int
            })
            &&& post.state == Device::spec_state_for_count(post.n_active_sessions as int)
            &&& outcome.response == (UciResponse::SessionDeinit {
                status: StatusCode::UciStatusOk,
            })
            &&& outcome.notifications@ == seq![
                UciNotification::SessionStatus {
                    session_id,
                    session_state: SessionState::SessionStateDeinit,
                    reason_code: ReasonCode::StateChangeWithSessionManagementCommands,
                },
            ]
            &&& outcome.timer_ops@ == if was_active {
                seq![TimerOp::Stop { session_id }]
            } else {
                Seq::<TimerOp>::empty()
            }
        }
    }

    /// What configuring a session does: an unknown identifier or a
    /// session past configuration is refused; an unacceptable entry
    /// list changes nothing; otherwise the entries are merged in order,
    /// and a session in `Init` that becomes complete moves to `Idle`.
    pub open spec fn spec_set_app_config_transition(
        pre: Device,
        post: Device,
        session_id: u32,
        params: Seq<crate::uci::AppConfigTlv>,
        outcome: CommandOutcome,
    ) -> bool {
        &&& Device::spec_same_identity(pre, post)
        &&& if !pre.spec_has_session(session_id) {
            &&& post == pre
            &&& outcome.response == (UciResponse::SessionSetAppConfig {
                status: StatusCode::UciStatusSessionNotExist,
            })
            &&& outcome.notifications@.len() == 0
            &&& outcome.timer_ops@.len() == 0
        } else {
            let k = pre.spec_session_index(session_id);
            let s = pre.sessions@[k];
            if s.state != SessionState::SessionStateInit && s.state
                != SessionState::SessionStateIdle {
                &&& post == pre
                &&& outcome.response == (UciResponse::SessionSetAppConfig {
                    status: StatusCode::UciStatusRejected,
                })
                &&& outcome.notifications@.len() == 0
                &&& outcome.timer_ops@.len() == 0
            } else if !crate::session::spec_tlvs_valid(params) {
                &&& post == pre
                &&& outcome.response == (UciResponse::SessionSetAppConfig {
                    status: StatusCode::UciStatusInvalidParam,
                })
                &&& outcome.notifications@.len() == 0
                &&& outcome.timer_ops@.len() == 0
            } else {
                let merged = crate::session::spec_apply_tlvs(s.app_config@, params);
                let becomes_idle = s.state == SessionState::SessionStateInit
                    && AppConfig::spec_is_complete(merged);
                let t = post.sessions@[k];
                &&& post.sessions@.len() == pre.sessions@.len()
                &&& post.sessions@ == pre.sessions@.update(k, t)
                &&& t.id == s.id
                &&& t.session_type == s.session_type
                &&& t.sequence_number == s.sequence_number
                &&& t.ranging_task == s.ranging_task
                &&& t.app_config@ == merged
                &&& t.state == if becomes_idle {
                    SessionState::SessionStateIdle
                } else {
                    s.state
                }
                &&& post.n_active_sessions == pre.n_active_sessions
                &&& post.state == pre.state
                &&& outcome.response == (UciResponse::SessionSetAppConfig {
                    status: StatusCode::UciStatusOk,
                })
                &&& outcome.notifications@ == if becomes_idle {
                    seq![
                        UciNotification::SessionStatus {
                            session_id,
                            session_state: SessionState::SessionStateIdle,
                            reason_code: ReasonCode::StateChangeWithSessionManagementCommands,
                        },
                    ]
                } else {
                    Seq::<UciNotification>::empty()
                }
                &&& outcome.timer_ops@.len() == 0
            }
        }
    }

    /// What starting a session does: an unknown identifier is refused, a
    /// session not sitting in `Idle` is not configured; otherwise the
    /// session becomes active with a scheduled timer, the counters
    /// follow, and the controller goes active.
    pub open spec fn spec_session_start_transition(
        pre: Device,
        post: Device,
        session_id: u32,
        outcome: CommandOutcome,
    ) -> bool {
        &&& Device::spec_same_identity(pre, post)
        &&& if !pre.spec_has_session(session_id) {
            &&& post == pre
            &&& outcome.response == (UciResponse::SessionStart {
                status: StatusCode::UciStatusSessionNotExist,
            })
            &&& outcome.notifications@.len() == 0
            &&& outcome.timer_ops@.len() == 0
        } else {
            let k = pre.spec_session_index(session_id);
            let s = pre.sessions@[k];
            if s.state != SessionState::SessionStateIdle {
                &&& post == pre
                &&& outcome.response == (UciResponse::SessionStart {
                    status: StatusCode::UciStatusSessionNotConfigured,
                })
                &&& outcome.notifications@.len() == 0
                &&& outcome.timer_ops@.len() == 0
            } else {
                let t = post.sessions@[k];
                &&& post.sessions@ == pre.sessions@.update(k, t)
                &&& t == (Session {
                    state: SessionState::SessionStateActive,
                    ranging_task: true,
                    ..s
                })
                &&& post.n_active_sessions == pre.n_active_sessions + 1
                &&& post.state == DeviceState::DeviceStateActive
                &&& outcome.response == (UciResponse::SessionStart {
                    status: StatusCode::UciStatusOk,
                })
                &&& outcome.notifications@ == seq![
                    UciNotification::SessionStatus {
                        session_id,
                        session_state: SessionState::SessionStateActive,
                        reason_code: ReasonCode::StateChangeWithSessionManagementCommands,
                    },
                ]
                &&& outcome.timer_ops@ == seq![
                    TimerOp::Start {
                        session_id,
                        interval_ms: s.app_config.ranging_interval_ms,
                    },
                ]
            }
        }
    }

    /// What stopping an active session does, whoever asks: the session
    /// returns to `Idle` with the given reason, its timer is cancelled,
    /// the counters follow, and the controller goes ready when nothing
    /// is left active.
    pub open spec fn spec_session_stopped(
        pre: Device,
        post: Device,
        session_id: u32,
        reason: ReasonCode,
        notifications: Seq<UciNotification>,
        timer_ops: Seq<TimerOp>,
    ) -> bool {
        let k = pre.spec_session_index(session_id);
        let s = pre.sessions@[k];
        let t = post.sessions@[k];
        &&& Device::spec_same_identity(pre, post)
        &&& post.sessions@ == pre.sessions@.update(k, t)
        &&& t == (Session { state: SessionState::SessionStateIdle, ranging_task: false, ..s })
        &&& post.n_active_sessions == pre.n_active_sessions - 1
        &&& post.state == Device::spec_state_for_count(post.n_active_sessions as int)
        &&& notifications == seq![
            UciNotification::SessionStatus {
                session_id,
                session_state: SessionState::SessionStateIdle,
                reason_code: reason,
            },
        ]
        &&& timer_ops == seq![TimerOp::Stop { session_id }]
    }

    /// What the stop command does: an unknown identifier is refused, a
    /// session that is not active is rejected, an active one is stopped.
    pub open spec fn spec_session_stop_transition(
        pre: Device,
        post: Device,
        session_id: u32,
        outcome: CommandOutcome,
    ) -> bool {
        if !pre.spec_has_session(session_id) {
            &&& post == pre
            &&& Device::spec_same_identity(pre, post)
            &&& outcome.response == (UciResponse::SessionStop {
                status: StatusCode::UciStatusSessionNotExist,
            })
            &&& outcome.notifications@.len() == 0
            &&& outcome.timer_ops@.len() == 0
        } else if pre.sessions@[pre.spec_session_index(session_id)].state
            != SessionState::SessionStateActive {
            &&& post == pre
            &&& Device::spec_same_identity(pre, post)
            &&& outcome.response == (UciResponse::SessionStop {
                status: StatusCode::UciStatusRejected,
            })
            &&& outcome.notifications@.len() == 0
            &&& outcome.timer_ops@.len() == 0
        } else {
            &&& Device::spec_session_stopped(
                pre,
                post,
                session_id,
                ReasonCode::StateChangeWithSessionManagementCommands,
                outcome.notifications@,
                outcome.timer_ops@,
            )
            &&& outcome.response == (UciResponse::SessionStop { status: StatusCode::UciStatusOk })
        }
    }

    /// Timer cancellations owed for every active session of a table,
    /// in table order.
    pub open spec fn spec_stop_ops(s: Seq<Session>) -> Seq<TimerOp>
        decreases s.len(),
    {
        if s.len() == 0 {
            Seq::empty()
        } else {
            (if s[0].state == SessionState::SessionStateActive {
                seq![TimerOp::Stop { session_id: s[0].id }]
            } else {
                Seq::<TimerOp>::empty()
            }) + Device::spec_stop_ops(s.skip(1))
        }
    }

    /// Find the table index of a session.
    pub(crate) fn find_session(&self, session_id: u32) -> (r: Option<usize>)
        ensures
            r is Some <==> self.spec_has_session(session_id),
            r matches Some(i) ==> 0 <= i < self.sessions@.len() && self.sessions@[i as int].id
                == session_id,
            Device::spec_ids_unique(self.sessions@) && r is Some ==> r.unwrap() as int
                == self.spec_session_index(session_id),
    {
        let mut i: usize = 0;
        while i < self.sessions.len()
            invariant
                i <= self.sessions@.len(),
                forall|j: int| 0 <= j < i ==> (#[trigger] self.sessions@[j]).id != session_id,
            decreases self.sessions@.len() - i,
        {
            if self.sessions[i].id == session_id {
                proof {
                    assert(self.spec_has_session(session_id)) by {
                        assert(self.sessions@[i as int].id == session_id);
                    }
                    if Device::spec_ids_unique(self.sessions@) {
                        let k = self.spec_session_index(session_id);
                        if k != i as int {
                            assert(self.sessions@[k].id == session_id);
                        }
                    }
                }
                return Some(i);
            }
            i += 1;
        }
        None
    }

    /// What a device reset does: every session goes away, every active
    /// timer is cancelled, and the controller returns to ready.
    pub open spec fn spec_device_reset_transition(
        pre: Device,
        post: Device,
        outcome: CommandOutcome,
    ) -> bool {
        &&& Device::spec_same_identity(pre, post)
        &&& post.sessions@.len() == 0
        &&& post.n_active_sessions == 0
        &&& post.state == DeviceState::DeviceStateReady
        &&& outcome.response == (UciResponse::DeviceReset { status: StatusCode::UciStatusOk })
        &&& outcome.notifications@.len() == 0
        &&& outcome.timer_ops@ == Device::spec_stop_ops(pre.sessions@)
    }

    /// What the device information query does: nothing, and it reports
    /// the emulator's version words.
    pub open spec fn spec_get_device_info_transition(
        pre: Device,
        post: Device,
        outcome: CommandOutcome,
    ) -> bool {
        &&& post == pre
        &&& outcome.response == (UciResponse::GetDeviceInfo {
            status: StatusCode::UciStatusOk,
            uci_version: UCI_VERSION,
            mac_version: MAC_VERSION,
            phy_version: PHY_VERSION,
            uci_test_version: UCI_TEST_VERSION,
        })
        &&& outcome.notifications@.len() == 0
        &&& outcome.timer_ops@.len() == 0
    }

    /// What each command does to a device.
    pub open spec fn spec_command_transition(
        pre: Device,
        post: Device,
        cmd: UciCommand,
        outcome: CommandOutcome,
    ) -> bool {
        match cmd {
            UciCommand::DeviceReset => Device::spec_device_reset_transition(pre, post, outcome),
            UciCommand::GetDeviceInfo => Device::spec_get_device_info_transition(
                pre,
                post,
                outcome,
            ),
            UciCommand::SessionInit { session_id, session_type } => {
                Device::spec_session_init_transition(pre, post, session_id, session_type, outcome)
            },
            UciCommand::SessionDeinit { session_id } => Device::spec_session_deinit_transition(
                pre,
                post,
                session_id,
                outcome,
            ),
            UciCommand::SessionSetAppConfig { session_id, params } => {
                Device::spec_set_app_config_transition(pre, post, session_id, params@, outcome)
            },
            UciCommand::SessionStart { session_id } => Device::spec_session_start_transition(
                pre,
                post,
                session_id,
                outcome,
            ),
            UciCommand::SessionStop { session_id } => Device::spec_session_stop_transition(
                pre,
                post,
                session_id,
                outcome,
            ),
        }
    }

    /// Create a session in `Init`.
    pub fn session_init(&mut self, session_id: u32, session_type: u8) -> (outcome: CommandOutcome)
        requires
            old(self).wf(),
        ensures
            final(self).wf(),
            Device::spec_session_init_transition(
                *old(self),
                *final(self),
                session_id,
                session_type,
                outcome,
            ),
    {
        match self.find_session(session_id) {
            Some(_) => CommandOutcome {
                response: UciResponse::SessionInit {
                    status: StatusCode::UciStatusSessionDuplicate,
                },
                notifications: Vec::new(),
                timer_ops: Vec::new(),
            },
            None => {
                if self.sessions.len() >= MAX_SESSION {
                    CommandOutcome {
                        response: UciResponse::SessionInit {
                            status: StatusCode::UciStatusMaxSessionsExceeded,
                        },
                        notifications: Vec::new(),
                        timer_ops: Vec::new(),
                    }
                } else {
                    let s = Session::new(session_id, session_type);
                    proof {
                        lemma_active_count_push(self.sessions@, s);
                    }
                    self.sessions.push(s);
                    proof {
                        assert(self.sessions@.take(old(self).sessions@.len() as int) =~= old(
                            self,
                        ).sessions@);
                    }
                    let mut notifications: Vec<UciNotification> = Vec::new();
                    notifications.push(
                        UciNotification::SessionStatus {
                            session_id,
                            session_state: SessionState::SessionStateInit,
                            reason_code: ReasonCode::StateChangeWithSessionManagementCommands,
                        },
                    );
                    proof {
                        assert(notifications@ =~= seq![
                            UciNotification::SessionStatus {
                                session_id,
                                session_state: SessionState::SessionStateInit,
                                reason_code: ReasonCode::StateChangeWithSessionManagementCommands,
                            },
                        ]);
                    }
                    CommandOutcome {
                        response: UciResponse::SessionInit { status: StatusCode::UciStatusOk },
                        notifications,
                        timer_ops: Vec::new(),
                    }
                }
            }
        }
    }

    /// Remove a session, cancelling its timer if it was active.
    pub fn session_deinit(&mut self, session_id: u32) -> (outcome: CommandOutcome)
        requires
            old(self).wf(),
        ensures
            final(self).wf(),
            Device::spec_session_deinit_transition(*old(self), *final(self), session_id, outcome),
    {
        match self.find_session(session_id) {
            None => CommandOutcome {
                response: UciResponse::SessionDeinit {
                    status: StatusCode::UciStatusSessionNotExist,
                },
                notifications: Vec::new(),
                timer_ops: Vec::new(),
            },
            Some(k) => {
                let was_active: bool = self.sessions[k].state
                    == SessionState::SessionStateActive;
                proof {
                    lemma_active_count_remove(self.sessions@, k as int);
                    if was_active {
                        lemma_active_count_at_least_one(self.sessions@, k as int);
                    }
                }
                let _removed: Session = self.sessions.remove(k);
                if was_active {
                    self.n_active_sessions = self.n_active_sessions - 1;
                }
                if self.n_active_sessions == 0 {
                    self.state = DeviceState::DeviceStateReady;
                }
                let mut notifications: Vec<UciNotification> = Vec::new();
                notifications.push(
                    UciNotification::SessionStatus {
                        session_id,
                        session_state: SessionState::SessionStateDeinit,
                        reason_code: ReasonCode::StateChangeWithSessionManagementCommands,
                    },
                );
                let mut timer_ops: Vec<TimerOp> = Vec::new();
                if was_active {
                    timer_ops.push(TimerOp::Stop { session_id });
                }
                proof {
                    assert(notifications@ =~= seq![
                        UciNotification::SessionStatus {
                            session_id,
                            session_state: SessionState::SessionStateDeinit,
                            reason_code: ReasonCode::StateChangeWithSessionManagementCommands,
                        },
                    ]);
                    if was_active {
                        assert(timer_ops@ =~= seq![TimerOp::Stop { session_id }]);
                    } else {
                        assert(timer_ops@ =~= Seq::<TimerOp>::empty());
                    }
                    if self.n_active_sessions > 0 {
                        lemma_active_count_nonneg(self.sessions@);
                    } else {
                        lemma_active_count_zero(self.sessions@);
                    }
                }
                CommandOutcome {
                    response: UciResponse::SessionDeinit { status: StatusCode::UciStatusOk },
                    notifications,
                    timer_ops,
                }
            }
        }
    }

    /// Merge configuration entries into a session that still accepts
    /// them, moving it from `Init` to `Idle` once it is complete.
    pub fn session_set_app_config(
        &mut self,
        session_id: u32,
        params: &Vec<crate::uci::AppConfigTlv>,
    ) -> (outcome: CommandOutcome)
        requires
            old(self).wf(),
        ensures
            final(self).wf(),
            Device::spec_set_app_config_transition(
                *old(self),
                *final(self),
                session_id,
                params@,
                outcome,
            ),
    {
        match self.find_session(session_id) {
            None => CommandOutcome {
                response: UciResponse::SessionSetAppConfig {
                    status: StatusCode::UciStatusSessionNotExist,
                },
                notifications: Vec::new(),
                timer_ops: Vec::new(),
            },
            Some(k) => {
                let st: SessionState = self.sessions[k].state;
                if st != SessionState::SessionStateInit && st
                    != SessionState::SessionStateIdle {
                    return CommandOutcome {
                        response: UciResponse::SessionSetAppConfig {
                            status: StatusCode::UciStatusRejected,
                        },
                        notifications: Vec::new(),
                        timer_ops: Vec::new(),
                    };
                }
                if !crate::session::tlvs_valid(params) {
                    return CommandOutcome {
                        response: UciResponse::SessionSetAppConfig {
                            status: StatusCode::UciStatusInvalidParam,
                        },
                        notifications: Vec::new(),
                        timer_ops: Vec::new(),
                    };
                }
                let becomes_idle: bool;
                {
                    let s = &mut self.sessions[k];
                    s.app_config.apply(params);
                    becomes_idle = s.state == SessionState::SessionStateInit
                        && s.app_config.is_complete();
                    if becomes_idle {
                        s.state = SessionState::SessionStateIdle;
                    }
                }
                proof {
                    lemma_active_count_update(
                        old(self).sessions@,
                        k as int,
                        self.sessions@[k as int],
                    );
                }
                let mut notifications: Vec<UciNotification> = Vec::new();
                if becomes_idle {
                    notifications.push(
                        UciNotification::SessionStatus {
                            session_id,
                            session_state: SessionState::SessionStateIdle,
                            reason_code: ReasonCode::StateChangeWithSessionManagementCommands,
                        },
                    );
                }
                proof {
                    if becomes_idle {
                        assert(notifications@ =~= seq![
                            UciNotification::SessionStatus {
                                session_id,
                                session_state: SessionState::SessionStateIdle,
                                reason_code: ReasonCode::StateChangeWithSessionManagementCommands,
                            },
                        ]);
                    } else {
                        assert(notifications@ =~= Seq::<UciNotification>::empty());
                    }
                }
                CommandOutcome {
                    response: UciResponse::SessionSetAppConfig {
                        status: StatusCode::UciStatusOk,
                    },
                    notifications,
                    timer_ops: Vec::new(),
                }
            }
        }
    }

    /// Start ranging on a configured session.
    pub fn session_start(&mut self, session_id: u32) -> (outcome: CommandOutcome)
        requires
            old(self).wf(),
        ensures
            final(self).wf(),
            Device::spec_session_start_transition(*old(self), *final(self), session_id, outcome),
    {
        match self.find_session(session_id) {
            None => CommandOutcome {
                response: UciResponse::SessionStart {
                    status: StatusCode::UciStatusSessionNotExist,
                },
                notifications: Vec::new(),
                timer_ops: Vec::new(),
            },
            Some(k) => {
                let st: SessionState = self.sessions[k].state;
                if st != SessionState::SessionStateIdle {
                    return CommandOutcome {
                        response: UciResponse::SessionStart {
                            status: StatusCode::UciStatusSessionNotConfigured,
                        },
                        notifications: Vec::new(),
                        timer_ops: Vec::new(),
                    };
                }
                let interval_ms: u32;
                {
                    let s = &mut self.sessions[k];
                    s.state = SessionState::SessionStateActive;
                    s.ranging_task = true;
                    interval_ms = s.app_config.ranging_interval_ms;
                }
                proof {
                    lemma_active_count_update(
                        old(self).sessions@,
                        k as int,
                        self.sessions@[k as int],
                    );
                    lemma_active_count_le_len(old(self).sessions@);
                }
                self.n_active_sessions = self.n_active_sessions + 1;
                self.state = DeviceState::DeviceStateActive;
                let mut notifications: Vec<UciNotification> = Vec::new();
                notifications.push(
                    UciNotification::SessionStatus {
                        session_id,
                        session_state: SessionState::SessionStateActive,
                        reason_code: ReasonCode::StateChangeWithSessionManagementCommands,
                    },
                );
                let mut timer_ops: Vec<TimerOp> = Vec::new();
                timer_ops.push(TimerOp::Start { session_id, interval_ms });
                proof {
                    assert(notifications@ =~= seq![
                        UciNotification::SessionStatus {
                            session_id,
                            session_state: SessionState::SessionStateActive,
                            reason_code: ReasonCode::StateChangeWithSessionManagementCommands,
                        },
                    ]);
                    assert(timer_ops@ =~= seq![TimerOp::Start { session_id, interval_ms }]);
                }
                CommandOutcome {
                    response: UciResponse::SessionStart { status: StatusCode::UciStatusOk },
                    notifications,
                    timer_ops,
                }
            }
        }
    }

    /// Stop an active session, with the reason that is announced.
    fn stop_active_session(&mut self, k: usize, reason: ReasonCode) -> (r: (
        Vec<UciNotification>,
        Vec<TimerOp>,
    ))
        requires
            old(self).wf(),
            k < old(self).sessions@.len(),
            old(self).sessions@[k as int].state == SessionState::SessionStateActive,
        ensures
            final(self).wf(),
            Device::spec_session_stopped(
                *old(self),
                *final(self),
                old(self).sessions@[k as int].id,
                reason,
                r.0@,
                r.1@,
            ),
    {
        let session_id: u32 = self.sessions[k].id;
        proof {
            lemma_active_count_at_least_one(self.sessions@, k as int);
            assert(self.sessions@[k as int].id == session_id);
            if old(self).spec_session_index(session_id) != k as int {
                let j = old(self).spec_session_index(session_id);
                assert(old(self).spec_has_session(session_id)) by {
                    assert(old(self).sessions@[k as int].id == session_id);
                }
                assert(old(self).sessions@[j].id == session_id);
            }
        }
        {
            let s = &mut self.sessions[k];
            s.state = SessionState::SessionStateIdle;
            s.ranging_task = false;
        }
        proof {
            lemma_active_count_update(old(self).sessions@, k as int, self.sessions@[k as int]);
        }
        self.n_active_sessions = self.n_active_sessions - 1;
        if self.n_active_sessions == 0 {
            self.state = DeviceState::DeviceStateReady;
        }
        proof {
            if self.n_active_sessions == 0 {
                lemma_active_count_zero(self.sessions@);
            }
        }
        let mut notifications: Vec<UciNotification> = Vec::new();
        notifications.push(
            UciNotification::SessionStatus {
                session_id,
                session_state: SessionState::SessionStateIdle,
                reason_code: reason,
            },
        );
        let mut timer_ops: Vec<TimerOp> = Vec::new();
        timer_ops.push(TimerOp::Stop { session_id });
        proof {
            assert(notifications@ =~= seq![
                UciNotification::SessionStatus {
                    session_id,
                    session_state: SessionState::SessionStateIdle,
                    reason_code: reason,
                },
            ]);
            assert(timer_ops@ =~= seq![TimerOp::Stop { session_id }]);
        }
        (notifications, timer_ops)
    }

    /// Stop ranging at the host's request.
    pub fn session_stop(&mut self, session_id: u32) -> (outcome: CommandOutcome)
        requires
            old(self).wf(),
        ensures
            final(self).wf(),
            Device::spec_session_stop_transition(*old(self), *final(self), session_id, outcome),
    {
        match self.find_session(session_id) {
            None => CommandOutcome {
                response: UciResponse::SessionStop {
                    status: StatusCode::UciStatusSessionNotExist,
                },
                notifications: Vec::new(),
                timer_ops: Vec::new(),
            },
            Some(k) => {
                if self.sessions[k].state != SessionState::SessionStateActive {
                    return CommandOutcome {
                        response: UciResponse::SessionStop {
                            status: StatusCode::UciStatusRejected,
                        },
                        notifications: Vec::new(),
                        timer_ops: Vec::new(),
                    };
                }
                let (notifications, timer_ops) = self.stop_active_session(
                    k,
                    ReasonCode::StateChangeWithSessionManagementCommands,
                );
                CommandOutcome {
                    response: UciResponse::SessionStop { status: StatusCode::UciStatusOk },
                    notifications,
                    timer_ops,
                }
            }
        }
    }

    /// Stop an active session on the in-band signal of a peer
    /// controller.
    pub fn stop_ranging_inband(&mut self, session_id: u32) -> (r: (
        Vec<UciNotification>,
        Vec<TimerOp>,
    ))
        requires
            old(self).wf(),
            old(self).spec_has_session(session_id),
            old(self).spec_session(session_id).state == SessionState::SessionStateActive,
        ensures
            final(self).wf(),
            Device::spec_session_stopped(
                *old(self),
                *final(self),
                session_id,
                ReasonCode::SessionStoppedDueToInbandSignal,
                r.0@,
                r.1@,
            ),
    {
        let found = self.find_session(session_id);
        proof {
            assert(found is Some);
        }
        match found {
            Some(k) => self.stop_active_session(k, ReasonCode::SessionStoppedDueToInbandSignal),
            None => {
                proof {
                    assert(false);
                }
                (Vec::new(), Vec::new())
            }
        }
    }

    /// Clear every session and cancel every active timer.
    pub fn device_reset(&mut self) -> (outcome: CommandOutcome)
        requires
            old(self).wf(),
        ensures
            final(self).wf(),
            Device::spec_device_reset_transition(*old(self), *final(self), outcome),
    {
        let mut timer_ops: Vec<TimerOp> = Vec::new();
        let mut i: usize = 0;
        while i < self.sessions.len()
            invariant
                i <= self.sessions@.len(),
                self == old(self),
                timer_ops@ =~= Device::spec_stop_ops(self.sessions@.take(i as int)),
            decreases self.sessions@.len() - i,
        {
            if self.sessions[i].state == SessionState::SessionStateActive {
                let session_id: u32 = self.sessions[i].id;
                timer_ops.push(TimerOp::Stop { session_id });
            }
            proof {
                lemma_stop_ops_snoc(self.sessions@, i as int);
            }
            i += 1;
        }
        proof {
            assert(self.sessions@.take(self.sessions@.len() as int) =~= self.sessions@);
        }
        self.sessions.clear();
        self.n_active_sessions = 0;
        self.state = DeviceState::DeviceStateReady;
        proof {
            assert(spec_active_count(self.sessions@) == 0);
        }
        CommandOutcome {
            response: UciResponse::DeviceReset { status: StatusCode::UciStatusOk },
            notifications: Vec::new(),
            timer_ops,
        }
    }

    /// Report the emulator's device information.
    pub fn get_device_info(&self) -> (outcome: CommandOutcome)
        ensures
            Device::spec_get_device_info_transition(*self, *self, outcome),
    {
        CommandOutcome {
            response: UciResponse::GetDeviceInfo {
                status: StatusCode::UciStatusOk,
                uci_version: UCI_VERSION,
                mac_version: MAC_VERSION,
                phy_version: PHY_VERSION,
                uci_test_version: UCI_TEST_VERSION,
            },
            notifications: Vec::new(),
            timer_ops: Vec::new(),
        }
    }

    /// Acknowledge a data packet from the host with one credit.
    pub fn data_message_snd(&self, data: &crate::uci::DataPacket) -> (r: UciNotification)
        ensures
            r == (UciNotification::DataCredit {
                session_id: data.session_id,
                credit_availability: 1u8,
            }),
    {
        UciNotification::DataCredit { session_id: data.session_id, credit_availability: 1 }
    }

    /// Run one host command against this device.
    pub fn command(&mut self, cmd: &UciCommand) -> (outcome: CommandOutcome)
        requires
            old(self).wf(),
        ensures
            final(self).wf(),
            Device::spec_command_transition(*old(self), *final(self), *cmd, outcome),
    {
        match cmd {
            UciCommand::DeviceReset => self.device_reset(),
            UciCommand::GetDeviceInfo => self.get_device_info(),
            UciCommand::SessionInit { session_id, session_type } => self.session_init(
                *session_id,
                *session_type,
            ),
            UciCommand::SessionDeinit { session_id } => self.session_deinit(*session_id),
            UciCommand::SessionSetAppConfig { session_id, params } => self.session_set_app_config(
                *session_id,
                params,
            ),
            UciCommand::SessionStart { session_id } => self.session_start(*session_id),
            UciCommand::SessionStop { session_id } => self.session_stop(*session_id),
        }
    }
}

/// The cancellations for the first `i + 1` sessions are those for the
/// first `i` plus the one the next session may owe.
pub proof fn lemma_stop_ops_snoc(s: Seq<Session>, i: int)
    requires
        0 <= i < s.len(),
    ensures
        Device::spec_stop_ops(s.take(i + 1)) == Device::spec_stop_ops(s.take(i)) + (if s[i].state
            == SessionState::SessionStateActive {
            seq![TimerOp::Stop { session_id: s[i].id }]
        } else {
            Seq::<TimerOp>::empty()
        }),
    decreases i,
{
    if i == 0 {
        assert(s.take(1)[0] == s[0]);
        assert(s.take(1).skip(1) =~= Seq::<Session>::empty());
        assert(s.take(0) =~= Seq::<Session>::empty());
        assert(Device::spec_stop_ops(Seq::<Session>::empty()) == Seq::<TimerOp>::empty());
        assert(Device::spec_stop_ops(s.take(1)) =~= (if s[0].state
            == SessionState::SessionStateActive {
            seq![TimerOp::Stop { session_id: s[0].id }]
        } else {
            Seq::<TimerOp>::empty()
        }));
    } else {
        lemma_stop_ops_snoc(s.skip(1), i - 1);
        assert(s.take(i + 1)[0] == s[0]);
        assert(s.take(i + 1).skip(1) =~= s.skip(1).take(i));
        assert(s.take(i)[0] == s[0]);
        assert(s.take(i).skip(1) =~= s.skip(1).take(i - 1));
        assert(s.skip(1)[i - 1] == s[i]);
        let head = if s[0].state == SessionState::SessionStateActive {
            seq![TimerOp::Stop { session_id: s[0].id }]
        } else {
            Seq::<TimerOp>::empty()
        };
        let tail = if s[i].state == SessionState::SessionStateActive {
            seq![TimerOp::Stop { session_id: s[i].id }]
        } else {
            Seq::<TimerOp>::empty()
        };
        assert(Device::spec_stop_ops(s.take(i + 1)) == head + Device::spec_stop_ops(
            s.skip(1).take(i),
        ));
        assert(Device::spec_stop_ops(s.take(i)) == head + Device::spec_stop_ops(
            s.skip(1).take(i - 1),
        ));
        assert(head + (Device::spec_stop_ops(s.skip(1).take(i - 1)) + tail) =~= (head
            + Device::spec_stop_ops(s.skip(1).take(i - 1))) + tail);
    }
}

} // verus!
