//! The LoRa radio state machine: transmission requests and the turnaround
//! between receiving and transmitting, receptions with collision marking,
//! and reception outcomes.
//!
//! The radio decides; its caller carries the decisions out. Each call of
//! `Radio::handle` takes the current time and one input (a transmission
//! request, a timer, or a packet arriving over the air) and returns the
//! actions to perform: timers to schedule, state changes to report to the
//! firmware, transmissions to put on the air, reception outcomes to deliver.
//! Signal strengths are compared by the caller: a packet arriving over the
//! air comes with the capture outcome against each reception in progress,
//! and a reception-complete timer with whether the signal was strong enough.
use vstd::prelude::*;
use crate::common::{EntityId, LoraPacket, RadioParams, RadioState, RadioStateChangedEvent, TransmitAirEvent};
use crate::lora::{airtime_us, calculate_time_on_air, RadioConfig, DEFAULT_PREAMBLE_SYMBOLS};
use crate::sim_time::SimTime;

verus! {

/// Timer that ends the switch from receiving to transmitting.
pub const TIMER_TX_TURNAROUND_COMPLETE: u64 = 1;

/// Timer that ends a transmission and the switch back to receiving.
pub const TIMER_RX_TURNAROUND_COMPLETE: u64 = 2;

/// Timers from this id on end a reception; the reception id is added to it.
pub const TIMER_RX_COMPLETE_BASE: u64 = 0x1000;

/// Internal state of the radio state machine.
#[derive(Debug, Clone, Copy, PartialEq, Eq, Structural)]
pub enum RadioMode {
    /// Ready to receive packets.
    Receiving,
    /// Switching from RX to TX.
    TxTurnaround,
    /// Actively transmitting.
    Transmitting,
}

/// A packet being received.
#[derive(Debug)]
pub struct Reception {
    /// The packet being received.
    pub packet: LoraPacket,
    /// Source radio entity ID.
    pub source_radio_id: EntityId,
    /// Start time of reception.
    pub start_time: SimTime,
    /// End time of reception.
    pub end_time: SimTime,
    /// Whether this packet was damaged by collision.
    pub collided: bool,
    /// Unique ID for this reception (for timer tracking).
    pub reception_id: u64,
}

/// The capture effect between an earlier reception and a later one that
/// overlaps it: a signal at least 6 dB stronger than the other survives,
/// otherwise both are lost.
#[derive(Debug, Clone, Copy, PartialEq, Eq, Structural)]
pub enum Capture {
    /// The earlier reception is at least 6 dB stronger: the later is lost.
    EarlierSurvives,
    /// The later reception is at least 6 dB stronger: the earlier is lost.
    LaterSurvives,
    /// Neither is 6 dB stronger: both are lost.
    BothLost,
}

/// An input to the radio.
#[derive(Debug)]
pub enum RadioInput {
    /// The firmware requests the transmission of a packet.
    TxRequest(LoraPacket),
    /// A timer of this radio fired.
    Timer {
        /// The timer id.
        timer_id: u64,
        /// For a reception-complete timer: whether the reception's SNR reached
        /// the sensitivity threshold of the spreading factor.
        signal_ok: bool,
    },
    /// A packet arrives over the air.
    ReceiveAir {
        /// The packet.
        packet: LoraPacket,
        /// The transmitting radio.
        source_radio_id: EntityId,
        /// When the transmission ends.
        end_time: SimTime,
        /// The capture outcome against each reception in progress, in order
        /// (the reception in progress first, the arriving packet second).
        captures: Vec<Capture>,
    },
}

/// An action the radio asks for.
#[derive(Debug)]
pub enum RadioAction {
    /// Fire a timer of this radio after a delay.
    ScheduleTimer {
        /// Delay from now.
        delay: SimTime,
        /// The timer id.
        timer_id: u64,
    },
    /// Report a state change to the attached firmware.
    StateChanged(RadioStateChangedEvent),
    /// Put a transmission on the air (to the graph entity).
    TransmitAir {
        /// The transmission.
        event: TransmitAirEvent,
        /// Time since the previous transmission started, if there was one.
        turnaround: Option<SimTime>,
    },
    /// Deliver a reception outcome to the attached firmware.
    RxPacket {
        /// The received packet.
        packet: LoraPacket,
        /// The transmitting radio.
        source_radio_id: EntityId,
        /// The reception's id.
        reception_id: u64,
        /// Whether the packet was damaged by collision.
        was_collided: bool,
        /// Whether the signal was too weak.
        was_weak_signal: bool,
        /// When the reception started.
        start_time: SimTime,
        /// When the reception ended.
        end_time: SimTime,
    },
}

/// Radio entity for LoRa simulation.
pub struct Radio {
    id: EntityId,
    config: RadioConfig,
    attached_firmware: EntityId,
    mode: RadioMode,
    state_version: u32,
    pending_tx: Option<LoraPacket>,
    tx_end: Option<SimTime>,
    receptions: Vec<Reception>,
    next_reception_id: u64,
    last_state_change_time: SimTime,
}

/// The state of a radio.
pub struct RadioView {
    /// The radio's entity id.
    pub id: EntityId,
    /// Its configuration.
    pub config: RadioConfig,
    /// The firmware entity it reports to.
    pub firmware: EntityId,
    /// The state machine's state.
    pub mode: RadioMode,
    /// Incremented on each state change reported to the firmware.
    pub state_version: u32,
    /// The packet waiting to be transmitted.
    pub pending: Option<LoraPacket>,
    /// The end time of the transmission in progress.
    pub tx_end: Option<SimTime>,
    /// The receptions in progress, oldest first.
    pub receptions: Seq<Reception>,
    /// The id the next reception gets.
    pub next_reception_id: u64,
    /// When the last transmission started (zero before the first).
    pub last_change: SimTime,
}

impl View for Radio {
    type V = RadioView;

    closed spec fn view(&self) -> RadioView {
        RadioView {
            id: self.id,
            config: self.config,
            firmware: self.attached_firmware,
            mode: self.mode,
            state_version: self.state_version,
            pending: self.pending_tx,
            tx_end: self.tx_end,
            receptions: self.receptions@,
            next_reception_id: self.next_reception_id,
            last_change: self.last_state_change_time,
        }
    }
}

/// The time on air of a payload with the radio's parameters.
pub open spec fn airtime(params: RadioParams, len: nat) -> SimTime {
    SimTime(airtime_us(len, params, DEFAULT_PREAMBLE_SYMBOLS as nat))
}

/// `a - b`, or zero when `b` is later.
pub open spec fn time_since(a: SimTime, b: SimTime) -> SimTime {
    if a@ >= b@ {
        SimTime((a@ - b@) as u64)
    } else {
        SimTime(0)
    }
}

/// Two time spans overlap.
pub open spec fn overlaps(a_start: SimTime, a_end: SimTime, b_start: SimTime, b_end: SimTime) -> bool {
    a_start@ < b_end@ && a_end@ > b_start@
}

/// A reception in progress after a packet arrives for `start..end` with
/// capture outcome `c` against it: lost if they overlap and it does not
/// survive.
pub open spec fn earlier_marked(r: Reception, c: Capture, start: SimTime, end: SimTime) -> Reception {
    if overlaps(r.start_time, r.end_time, start, end) && c != Capture::EarlierSurvives {
        Reception { collided: true, ..r }
    } else {
        r
    }
}

/// A packet arriving for `start..end` is lost: it overlaps a reception in
/// progress against which it does not survive.
pub open spec fn later_collided(rs: Seq<Reception>, cs: Seq<Capture>, start: SimTime, end: SimTime) -> bool {
    exists|i: int|
        0 <= i < rs.len() && overlaps((#[trigger] rs[i]).start_time, rs[i].end_time, start, end) && cs[i]
            != Capture::LaterSurvives
}

/// The position of the reception with the given id, if any.
pub open spec fn reception_index(rs: Seq<Reception>, rid: u64) -> Option<int> {
    if exists|i: int| 0 <= i < rs.len() && (#[trigger] rs[i]).reception_id == rid {
        Some(choose|i: int| 0 <= i < rs.len() && (#[trigger] rs[i]).reception_id == rid)
    } else {
        None
    }
}

/// The radio's invariant: it has a transmission end exactly while
/// transmitting, and its receptions have increasing ids below the next id.
pub open spec fn radio_wf(v: RadioView) -> bool {
    &&& (v.mode == RadioMode::Transmitting) == v.tx_end.is_some()
    &&& forall|i: int, j: int|
        0 <= i < j < v.receptions.len() ==> (#[trigger] v.receptions[i]).reception_id
            < (#[trigger] v.receptions[j]).reception_id
    &&& forall|i: int| 0 <= i < v.receptions.len() ==> (#[trigger] v.receptions[i]).reception_id < v.next_reception_id
}

/// A transmission request: from receiving, start the switch to transmitting;
/// otherwise the packet replaces any pending one.
pub open spec fn after_tx_request(v: RadioView, p: LoraPacket) -> (RadioView, Seq<RadioAction>) {
    if v.mode == RadioMode::Receiving {
        (
            RadioView { mode: RadioMode::TxTurnaround, pending: Some(p), ..v },
            seq![
                RadioAction::ScheduleTimer {
                    delay: v.config.rx_to_tx_turnaround,
                    timer_id: TIMER_TX_TURNAROUND_COMPLETE,
                },
            ],
        )
    } else {
        (RadioView { pending: Some(p), ..v }, Seq::empty())
    }
}

/// The switch to transmitting is complete: the pending packet, if any, goes
/// on the air until its time on air has passed.
pub open spec fn after_tx_turnaround(v: RadioView, now: SimTime) -> (RadioView, Seq<RadioAction>) {
    match v.pending {
        None => (v, Seq::empty()),
        Some(p) => {
            let air = airtime(v.config.params, p.spec_payload().len());
            let end = SimTime((now@ + air@) as u64);
            let ver = (v.state_version + 1) as u32;
            (
                RadioView {
                    mode: RadioMode::Transmitting,
                    pending: None,
                    tx_end: Some(end),
                    state_version: ver,
                    last_change: now,
                    ..v
                },
                seq![
                    RadioAction::StateChanged(
                        RadioStateChangedEvent { new_state: RadioState::Transmitting, state_version: ver },
                    ),
                    RadioAction::TransmitAir {
                        event: TransmitAirEvent {
                            radio_id: v.id,
                            packet: p,
                            params: v.config.params,
                            end_time: end,
                        },
                        turnaround: if v.last_change@ != 0 {
                            Some(time_since(now, v.last_change))
                        } else {
                            None
                        },
                    },
                    RadioAction::ScheduleTimer {
                        delay: SimTime((air@ + v.config.tx_to_rx_turnaround@) as u64),
                        timer_id: TIMER_RX_TURNAROUND_COMPLETE,
                    },
                ],
            )
        },
    }
}

/// The transmission and the switch back are over: receiving again, and at
/// once switching to transmitting if a packet is pending.
pub open spec fn after_rx_turnaround(v: RadioView) -> (RadioView, Seq<RadioAction>) {
    let ver = (v.state_version + 1) as u32;
    let notify = RadioAction::StateChanged(
        RadioStateChangedEvent { new_state: RadioState::Receiving, state_version: ver },
    );
    if v.pending.is_some() {
        (
            RadioView { mode: RadioMode::TxTurnaround, tx_end: None, state_version: ver, ..v },
            seq![
                notify,
                RadioAction::ScheduleTimer {
                    delay: v.config.rx_to_tx_turnaround,
                    timer_id: TIMER_TX_TURNAROUND_COMPLETE,
                },
            ],
        )
    } else {
        (RadioView { mode: RadioMode::Receiving, tx_end: None, state_version: ver, ..v }, seq![notify])
    }
}

/// A reception ends: it is removed and its outcome delivered.
pub open spec fn after_rx_complete(v: RadioView, rid: u64, signal_ok: bool) -> (RadioView, Seq<RadioAction>) {
    match reception_index(v.receptions, rid) {
        None => (v, Seq::empty()),
        Some(i) => {
            let r = v.receptions[i];
            (
                RadioView { receptions: v.receptions.remove(i), ..v },
                seq![
                    RadioAction::RxPacket {
                        packet: r.packet,
                        source_radio_id: r.source_radio_id,
                        reception_id: rid,
                        was_collided: r.collided,
                        was_weak_signal: !signal_ok,
                        start_time: r.start_time,
                        end_time: r.end_time,
                    },
                ],
            )
        },
    }
}

/// A packet arrives over the air: ignored unless receiving; otherwise a new
/// reception starts, collisions are marked, and its end is scheduled.
pub open spec fn after_receive_air(
    v: RadioView,
    now: SimTime,
    packet: LoraPacket,
    source: EntityId,
    end: SimTime,
    captures: Seq<Capture>,
) -> (RadioView, Seq<RadioAction>) {
    if v.mode != RadioMode::Receiving {
        (v, Seq::empty())
    } else {
        let rid = v.next_reception_id;
        let marked = Seq::new(
            v.receptions.len(),
            |i: int| earlier_marked(v.receptions[i], captures[i], now, end),
        );
        let r = Reception {
            packet,
            source_radio_id: source,
            start_time: now,
            end_time: end,
            collided: later_collided(v.receptions, captures, now, end),
            reception_id: rid,
        };
        (
            RadioView { receptions: marked.push(r), next_reception_id: (rid + 1) as u64, ..v },
            seq![
                RadioAction::ScheduleTimer {
                    delay: time_since(end, now),
                    timer_id: (TIMER_RX_COMPLETE_BASE + rid) as u64,
                },
            ],
        )
    }
}

/// The state and actions after an input at time `now`.
pub open spec fn radio_next(v: RadioView, now: SimTime, input: RadioInput) -> (RadioView, Seq<RadioAction>) {
    match input {
        RadioInput::TxRequest(p) => after_tx_request(v, p),
        RadioInput::Timer { timer_id, signal_ok } => if timer_id == TIMER_TX_TURNAROUND_COMPLETE {
            after_tx_turnaround(v, now)
        } else if timer_id == TIMER_RX_TURNAROUND_COMPLETE {
            after_rx_turnaround(v)
        } else if timer_id >= TIMER_RX_COMPLETE_BASE {
            after_rx_complete(v, (timer_id - TIMER_RX_COMPLETE_BASE) as u64, signal_ok)
        } else {
            (v, Seq::empty())
        },
        RadioInput::ReceiveAir { packet, source_radio_id, end_time, captures } => after_receive_air(
            v,
            now,
            packet,
            source_radio_id,
            end_time,
            captures@,
        ),
    }
}

/// The input is handled without overflow: a transmission's end time and
/// completion delay fit, state versions do not wrap, reception ids and
/// their timer ids fit, and a packet arriving while receiving comes with
/// one capture outcome per reception in progress.
pub open spec fn step_ok(v: RadioView, now: SimTime, input: RadioInput) -> bool {
    match input {
        RadioInput::TxRequest(_) => true,
        RadioInput::Timer { timer_id, .. } => if timer_id == TIMER_TX_TURNAROUND_COMPLETE {
            match v.pending {
                Some(p) => {
                    let air = airtime(v.config.params, p.spec_payload().len());
                    &&& now@ + air@ <= u64::MAX
                    &&& air@ + v.config.tx_to_rx_turnaround@ <= u64::MAX
                    &&& v.state_version < u32::MAX
                },
                None => true,
            }
        } else if timer_id == TIMER_RX_TURNAROUND_COMPLETE {
            v.state_version < u32::MAX
        } else {
            true
        },
        RadioInput::ReceiveAir { captures, .. } => v.mode == RadioMode::Receiving ==> captures@.len()
            == v.receptions.len() && v.next_reception_id <= u64::MAX - TIMER_RX_COMPLETE_BASE,
    }
}

impl Radio {
    /// Create a new radio: receiving, with nothing pending or in progress.
    pub fn new(id: EntityId, config: RadioConfig, attached_firmware: EntityId) -> (r: Self)
        ensures
            r@ == (RadioView {
                id,
                config,
                firmware: attached_firmware,
                mode: RadioMode::Receiving,
                state_version: 0,
                pending: None,
                tx_end: None,
                receptions: Seq::empty(),
                next_reception_id: 0,
                last_change: SimTime(0),
            }),
            radio_wf(r@),
    {
        Radio {
            id,
            config,
            attached_firmware,
            mode: RadioMode::Receiving,
            state_version: 0,
            pending_tx: None,
            tx_end: None,
            receptions: Vec::new(),
            next_reception_id: 0,
            last_state_change_time: SimTime(0),
        }
    }

    /// Create a new radio with the given parameters and the default
    /// turnaround times and graph entity.
    pub fn with_params(id: EntityId, params: RadioParams, attached_firmware: EntityId) -> (r: Self)
        ensures
            r@.config.params == params,
            r@.config.rx_to_tx_turnaround@ == 100,
            r@.config.tx_to_rx_turnaround@ == 100,
            r@.config.graph_entity == EntityId(0),
            r@.id == id,
            r@.firmware == attached_firmware,
            r@.mode == RadioMode::Receiving,
            r@.state_version == 0,
            r@.pending is None,
            r@.receptions.len() == 0,
            r@.next_reception_id == 0,
            r@.last_change@ == 0,
            radio_wf(r@),
    {
        let config = RadioConfig {
            params,
            rx_to_tx_turnaround: SimTime::from_micros(100),
            tx_to_rx_turnaround: SimTime::from_micros(100),
            graph_entity: EntityId::new(0),
        };
        Radio::new(id, config, attached_firmware)
    }

    /// Get the radio parameters.
    pub fn params(&self) -> (p: &RadioParams)
        ensures
            *p == self@.config.params,
    {
        &self.config.params
    }

    /// Get the radio configuration.
    pub fn config(&self) -> (c: &RadioConfig)
        ensures
            *c == self@.config,
    {
        &self.config
    }

    /// Get the attached firmware entity ID.
    pub fn attached_firmware(&self) -> (e: EntityId)
        ensures
            e == self@.firmware,
    {
        self.attached_firmware
    }

    /// Check if the radio is transmitting or switching to transmit.
    pub fn is_transmitting(&self) -> (b: bool)
        ensures
            b == (self@.mode == RadioMode::Transmitting || self@.mode == RadioMode::TxTurnaround),
    {
        match self.mode {
            RadioMode::Transmitting | RadioMode::TxTurnaround => true,
            RadioMode::Receiving => false,
        }
    }

    /// Get the current state version.
    pub fn state_version(&self) -> (v: u32)
        ensures
            v == self@.state_version,
    {
        self.state_version
    }

    /// The id the next reception will get.
    pub fn next_reception_id(&self) -> (id: u64)
        ensures
            id == self@.next_reception_id,
    {
        self.next_reception_id
    }

    /// The payload length of the packet waiting to be transmitted, if any.
    pub fn pending_payload_len(&self) -> (n: Option<usize>)
        ensures
            match self@.pending {
                Some(p) => n == Some(p.spec_payload().len() as usize),
                None => n is None,
            },
    {
        match &self.pending_tx {
            Some(p) => Some(p.payload_len()),
            None => None,
        }
    }

    /// The ids of the receptions in progress, oldest first.
    pub fn reception_ids(&self) -> (ids: Vec<u64>)
        ensures
            ids@ == self@.receptions.map_values(|r: Reception| r.reception_id),
    {
        let mut ids: Vec<u64> = Vec::new();
        let mut i: usize = 0;
        while i < self.receptions.len()
            invariant
                i <= self.receptions@.len(),
                ids@ == self.receptions@.take(i as int).map_values(|r: Reception| r.reception_id),
            decreases self.receptions@.len() - i,
        {
            ids.push(self.receptions[i].reception_id);
            assert(self.receptions@.take(i + 1) =~= self.receptions@.take(i as int).push(self.receptions@[i as int]));
            assert(ids@ =~= self.receptions@.take(i + 1).map_values(|r: Reception| r.reception_id));
            i = i + 1;
        }
        assert(self.receptions@.take(self.receptions@.len() as int) =~= self.receptions@);
        ids
    }

    /// Set the graph entity ID for routing transmissions.
    pub fn set_graph_entity(&mut self, graph_entity: EntityId)
        ensures
            final(self)@ == (RadioView {
                config: RadioConfig { graph_entity, ..old(self)@.config },
                ..old(self)@
            }),
    {
        self.config.graph_entity = graph_entity;
    }

    fn handle_tx_request(&mut self, packet: LoraPacket) -> (actions: Vec<RadioAction>)
        requires
            radio_wf(old(self)@),
        ensures
            radio_wf(final(self)@),
            (final(self)@, actions@) == after_tx_request(old(self)@, packet),
    {
        let mut actions: Vec<RadioAction> = Vec::new();
        match self.mode {
            RadioMode::Receiving => {
                self.mode = RadioMode::TxTurnaround;
                self.pending_tx = Some(packet);
                actions.push(
                    RadioAction::ScheduleTimer {
                        delay: self.config.rx_to_tx_turnaround,
                        timer_id: TIMER_TX_TURNAROUND_COMPLETE,
                    },
                );
            },
            _ => {
                self.pending_tx = Some(packet);
            },
        }
        assert(actions@ =~= after_tx_request(old(self)@, packet).1);
        actions
    }

    fn start_transmission(&mut self, now: SimTime) -> (actions: Vec<RadioAction>)
        requires
            radio_wf(old(self)@),
            step_ok(old(self)@, now, RadioInput::Timer { timer_id: TIMER_TX_TURNAROUND_COMPLETE, signal_ok: true }),
        ensures
            radio_wf(final(self)@),
            (final(self)@, actions@) == after_tx_turnaround(old(self)@, now),
    {
        let mut actions: Vec<RadioAction> = Vec::new();
        match self.pending_tx.take() {
            None => {
                assert(actions@ =~= Seq::<RadioAction>::empty());
                actions
            },
            Some(packet) => {
                let air = calculate_time_on_air(&self.config.params, packet.payload_len());
                let end = now + air;
                let turnaround = if self.last_state_change_time.0 != 0 {
                    Some(now - self.last_state_change_time)
                } else {
                    None
                };
                self.last_state_change_time = now;
                self.mode = RadioMode::Transmitting;
                self.tx_end = Some(end);
                self.state_version = self.state_version + 1;
                let ver = self.state_version;
                let delay = air + self.config.tx_to_rx_turnaround;
                actions.push(
                    RadioAction::StateChanged(
                        RadioStateChangedEvent { new_state: RadioState::Transmitting, state_version: ver },
                    ),
                );
                actions.push(
                    RadioAction::TransmitAir {
                        event: TransmitAirEvent {
                            radio_id: self.id,
                            packet,
                            params: self.config.params,
                            end_time: end,
                        },
                        turnaround,
                    },
                );
                actions.push(RadioAction::ScheduleTimer { delay, timer_id: TIMER_RX_TURNAROUND_COMPLETE });
                assert(actions@ =~= after_tx_turnaround(old(self)@, now).1);
                actions
            },
        }
    }

    fn finish_transmission(&mut self) -> (actions: Vec<RadioAction>)
        requires
            radio_wf(old(self)@),
            old(self)@.state_version < u32::MAX,
        ensures
            radio_wf(final(self)@),
            (final(self)@, actions@) == after_rx_turnaround(old(self)@),
    {
        let mut actions: Vec<RadioAction> = Vec::new();
        self.mode = RadioMode::Receiving;
        self.tx_end = None;
        self.state_version = self.state_version + 1;
        actions.push(
            RadioAction::StateChanged(
                RadioStateChangedEvent { new_state: RadioState::Receiving, state_version: self.state_version },
            ),
        );
        if self.pending_tx.is_some() {
            self.mode = RadioMode::TxTurnaround;
            actions.push(
                RadioAction::ScheduleTimer {
                    delay: self.config.rx_to_tx_turnaround,
                    timer_id: TIMER_TX_TURNAROUND_COMPLETE,
                },
            );
        }
        assert(actions@ =~= after_rx_turnaround(old(self)@).1);
        actions
    }

    fn complete_reception(&mut self, reception_id: u64, signal_ok: bool) -> (actions: Vec<RadioAction>)
        requires
            radio_wf(old(self)@),
        ensures
            radio_wf(final(self)@),
            (final(self)@, actions@) == after_rx_complete(old(self)@, reception_id, signal_ok),
    {
        let mut actions: Vec<RadioAction> = Vec::new();
        let ghost rs = self.receptions@;
        assert(rs == old(self)@.receptions);
        let mut i: usize = 0;
        while i < self.receptions.len()
            invariant
                i <= self.receptions@.len(),
                self.receptions@ == rs,
                forall|j: int| 0 <= j < i ==> (#[trigger] rs[j]).reception_id != reception_id,
            ensures
                i <= self.receptions@.len(),
                self.receptions@ == rs,
                forall|j: int| 0 <= j < i ==> (#[trigger] rs[j]).reception_id != reception_id,
                i < self.receptions@.len() ==> rs[i as int].reception_id == reception_id,
            decreases self.receptions@.len() - i,
        {
            if self.receptions[i].reception_id == reception_id {
                break;
            }
            i = i + 1;
        }
        if i < self.receptions.len() {
            proof {
                assert(rs[i as int].reception_id == reception_id);
                let k = choose|k: int| 0 <= k < rs.len() && (#[trigger] rs[k]).reception_id == reception_id;
                if k < i {
                } else if k > i {
                    assert(rs[i as int].reception_id < rs[k].reception_id);
                }
                assert(reception_index(rs, reception_id) == Some(i as int));
            }
            let r = self.receptions.remove(i);
            actions.push(
                RadioAction::RxPacket {
                    packet: r.packet,
                    source_radio_id: r.source_radio_id,
                    reception_id,
                    was_collided: r.collided,
                    was_weak_signal: !signal_ok,
                    start_time: r.start_time,
                    end_time: r.end_time,
                },
            );
            proof {
                let t = rs.remove(i as int);
                assert forall|a: int, b: int| 0 <= a < b < t.len() implies (#[trigger] t[a]).reception_id
                    < (#[trigger] t[b]).reception_id by {
                    let a2 = if a < i { a } else { a + 1 };
                    let b2 = if b < i { b } else { b + 1 };
                    assert(t[a] == rs[a2] && t[b] == rs[b2]);
                }
                assert forall|a: int| 0 <= a < t.len() implies (#[trigger] t[a]).reception_id
                    < old(self)@.next_reception_id by {
                    let a2 = if a < i { a } else { a + 1 };
                    assert(t[a] == rs[a2]);
                }
            }
            assert(actions@ =~= after_rx_complete(old(self)@, reception_id, signal_ok).1);
        } else {
            assert(reception_index(rs, reception_id) is None);
            assert(actions@ =~= Seq::<RadioAction>::empty());
        }
        actions
    }

    fn receive_air(
        &mut self,
        now: SimTime,
        packet: LoraPacket,
        source_radio_id: EntityId,
        end_time: SimTime,
        captures: Vec<Capture>,
    ) -> (actions: Vec<RadioAction>)
        requires
            radio_wf(old(self)@),
            old(self)@.mode == RadioMode::Receiving ==> captures@.len() == old(self)@.receptions.len()
                && old(self)@.next_reception_id <= u64::MAX - TIMER_RX_COMPLETE_BASE,
        ensures
            radio_wf(final(self)@),
            (final(self)@, actions@) == after_receive_air(
                old(self)@,
                now,
                packet,
                source_radio_id,
                end_time,
                captures@,
            ),
    {
        let mut actions: Vec<RadioAction> = Vec::new();
        if self.mode != RadioMode::Receiving {
            assert(actions@ =~= Seq::<RadioAction>::empty());
            return actions;
        }
        let ghost rs = self.receptions@;
        assert(rs == old(self)@.receptions);
        let rid = self.next_reception_id;
        let mut later = false;
        let mut i: usize = 0;
        while i < self.receptions.len()
            invariant
                i <= self.receptions@.len(),
                self@ == (RadioView { receptions: self.receptions@, ..old(self)@ }),
                rid == old(self)@.next_reception_id,
                self.receptions@.len() == rs.len(),
                captures@.len() == rs.len(),
                forall|j: int|
                    0 <= j < i ==> #[trigger] self.receptions@[j] == earlier_marked(rs[j], captures@[j], now, end_time),
                forall|j: int| i <= j < rs.len() ==> #[trigger] self.receptions@[j] == rs[j],
                later == exists|j: int|
                    0 <= j < i && overlaps((#[trigger] rs[j]).start_time, rs[j].end_time, now, end_time)
                        && captures@[j] != Capture::LaterSurvives,
            decreases self.receptions@.len() - i,
        {
            let ov = self.receptions[i].start_time.0 < end_time.0 && self.receptions[i].end_time.0 > now.0;
            if ov {
                match captures[i] {
                    Capture::EarlierSurvives => {
                        later = true;
                    },
                    Capture::LaterSurvives => {
                        self.receptions[i].collided = true;
                    },
                    Capture::BothLost => {
                        self.receptions[i].collided = true;
                        later = true;
                    },
                }
            }
            i = i + 1;
        }
        let r = Reception {
            packet,
            source_radio_id,
            start_time: now,
            end_time,
            collided: later,
            reception_id: rid,
        };
        self.receptions.push(r);
        self.next_reception_id = rid + 1;
        actions.push(
            RadioAction::ScheduleTimer { delay: end_time - now, timer_id: TIMER_RX_COMPLETE_BASE + rid },
        );
        proof {
            let marked = Seq::new(rs.len(), |j: int| earlier_marked(rs[j], captures@[j], now, end_time));
            assert(self.receptions@ =~= marked.push(self.receptions@[rs.len() as int]));
            assert(later == later_collided(rs, captures@, now, end_time));
            let t = self.receptions@;
            assert forall|a: int| 0 <= a < t.len() implies (#[trigger] t[a]).reception_id
                < self.next_reception_id by {
                if a < rs.len() {
                    assert(t[a].reception_id == rs[a].reception_id);
                }
            }
            assert forall|a: int, b: int| 0 <= a < b < t.len() implies (#[trigger] t[a]).reception_id
                < (#[trigger] t[b]).reception_id by {
                assert(t[a].reception_id == rs[a].reception_id);
                if b < rs.len() {
                    assert(t[b].reception_id == rs[b].reception_id);
                }
            }
            assert(actions@ =~= after_receive_air(old(self)@, now, packet, source_radio_id, end_time, captures@).1);
        }
        actions
    }

    /// Handle one input at time `now`: returns the actions to perform, in
    /// order.
    pub fn handle(&mut self, now: SimTime, input: RadioInput) -> (actions: Vec<RadioAction>)
        requires
            radio_wf(old(self)@),
            step_ok(old(self)@, now, input),
        ensures
            radio_wf(final(self)@),
            final(self)@ == radio_next(old(self)@, now, input).0,
            actions@ == radio_next(old(self)@, now, input).1,
    {
        match input {
            RadioInput::TxRequest(packet) => self.handle_tx_request(packet),
            RadioInput::Timer { timer_id, signal_ok } => {
                if timer_id == TIMER_TX_TURNAROUND_COMPLETE {
                    self.start_transmission(now)
                } else if timer_id == TIMER_RX_TURNAROUND_COMPLETE {
                    self.finish_transmission()
                } else if timer_id >= TIMER_RX_COMPLETE_BASE {
                    self.complete_reception(timer_id - TIMER_RX_COMPLETE_BASE, signal_ok)
                } else {
                    let actions: Vec<RadioAction> = Vec::new();
                    assert(actions@ =~= Seq::<RadioAction>::empty());
                    actions
                }
            },
            RadioInput::ReceiveAir { packet, source_radio_id, end_time, captures } => {
                self.receive_air(now, packet, source_radio_id, end_time, captures)
            },
        }
    }
}

/// The number of state changes reported among the actions.
pub open spec fn state_reports(actions: Seq<RadioAction>) -> nat
    decreases actions.len(),
{
    if actions.len() == 0 {
        0
    } else {
        state_reports(actions.drop_last()) + if actions.last() is StateChanged {
            1nat
        } else {
            0nat
        }
    }
}

/// Each input reports at most one state change, and the state version grows
/// by exactly the number of reports; a report carries the new version.
pub proof fn lemma_state_version_counts_reports(v: RadioView, now: SimTime, input: RadioInput)
    requires
        radio_wf(v),
        step_ok(v, now, input),
    ensures
        ({
            let (w, actions) = radio_next(v, now, input);
            &&& w.state_version == v.state_version + state_reports(actions)
            &&& state_reports(actions) <= 1
            &&& forall|i: int|
                0 <= i < actions.len() && (#[trigger] actions[i]) is StateChanged ==> actions[i]->0.state_version
                    == w.state_version
        }),
{
    let (w, actions) = radio_next(v, now, input);
    reveal_with_fuel(state_reports, 4);
    if actions.len() > 0 {
        assert(actions.drop_last().len() < 4);
        if actions.len() > 1 {
            assert(actions.drop_last().drop_last().len() < 3);
        }
    }
    match input {
        RadioInput::TxRequest(p) => {
            if v.mode == RadioMode::Receiving {
                assert(actions.drop_last() =~= Seq::<RadioAction>::empty());
            }
        },
        RadioInput::Timer { timer_id, signal_ok } => {
            if timer_id == TIMER_TX_TURNAROUND_COMPLETE {
                if v.pending.is_some() {
                    assert(actions.drop_last().drop_last().drop_last() =~= Seq::<RadioAction>::empty());
                    assert(actions.drop_last().drop_last() =~= seq![actions[0]]);
                    assert(actions.drop_last() =~= seq![actions[0], actions[1]]);
                }
            } else if timer_id == TIMER_RX_TURNAROUND_COMPLETE {
                if v.pending.is_some() {
                    assert(actions.drop_last().drop_last() =~= Seq::<RadioAction>::empty());
                    assert(actions.drop_last() =~= seq![actions[0]]);
                } else {
                    assert(actions.drop_last() =~= Seq::<RadioAction>::empty());
                }
            } else if timer_id >= TIMER_RX_COMPLETE_BASE {
                if actions.len() > 0 {
                    assert(actions.drop_last() =~= Seq::<RadioAction>::empty());
                }
            }
        },
        RadioInput::ReceiveAir { .. } => {
            if v.mode == RadioMode::Receiving {
                assert(actions.drop_last() =~= Seq::<RadioAction>::empty());
            }
        },
    }
}

/// A packet arriving while the radio is not receiving is lost: nothing
/// changes and nothing happens.
pub proof fn lemma_no_reception_unless_receiving(
    v: RadioView,
    now: SimTime,
    packet: LoraPacket,
    source: EntityId,
    end: SimTime,
    captures: Seq<Capture>,
)
    requires
        v.mode != RadioMode::Receiving,
    ensures
        after_receive_air(v, now, packet, source, end, captures) == (v, Seq::<RadioAction>::empty()),
{
}

/// A reception's outcome is delivered once: after its completion no
/// reception with its id remains, and completing it again does nothing.
pub proof fn lemma_reception_delivered_once(v: RadioView, rid: u64, ok1: bool, ok2: bool)
    requires
        radio_wf(v),
    ensures
        ({
            let w = after_rx_complete(v, rid, ok1).0;
            &&& radio_wf(w)
            &&& reception_index(w.receptions, rid) is None
            &&& after_rx_complete(w, rid, ok2) == (w, Seq::<RadioAction>::empty())
        }),
{
    let w = after_rx_complete(v, rid, ok1).0;
    match reception_index(v.receptions, rid) {
        None => {},
        Some(i) => {
            let rs = v.receptions;
            let t = rs.remove(i);
            assert forall|a: int| 0 <= a < t.len() implies #[trigger] t[a] == rs[if a < i { a } else { a + 1 }] by {}
            assert forall|a: int, b: int| 0 <= a < b < t.len() implies (#[trigger] t[a]).reception_id
                < (#[trigger] t[b]).reception_id by {
                let a2 = if a < i { a } else { a + 1 };
                let b2 = if b < i { b } else { b + 1 };
                assert(t[a] == rs[a2] && t[b] == rs[b2]);
            }
            assert forall|a: int| 0 <= a < t.len() implies (#[trigger] t[a]).reception_id != rid by {
                let a2 = if a < i { a } else { a + 1 };
                assert(t[a] == rs[a2]);
                if a2 < i {
                    assert(rs[a2].reception_id < rs[i].reception_id);
                } else {
                    assert(rs[i].reception_id < rs[a2].reception_id);
                }
            }
        },
    }
}

/// The capture effect decides which of two overlapping packets survives.
/// While receiving, a packet that arrives for `now..end_time` starts a
/// reception; when that reception completes, its outcome is delivered as
/// collided exactly when it overlaps some reception already in progress
/// against which it does not survive (the capture outcome is not
/// `LaterSurvives`). A reception already in progress is lost when the new
/// packet overlaps it and it does not survive (the outcome is not
/// `EarlierSurvives`); otherwise it keeps its state.
pub proof fn lemma_capture_decides_collisions(
    v: RadioView,
    now: SimTime,
    packet: LoraPacket,
    source: EntityId,
    end_time: SimTime,
    captures: Vec<Capture>,
    done: SimTime,
    signal_ok: bool,
)
    requires
        radio_wf(v),
        v.mode == RadioMode::Receiving,
        captures@.len() == v.receptions.len(),
        v.next_reception_id <= u64::MAX - TIMER_RX_COMPLETE_BASE,
    ensures
        ({
            let cs = captures@;
            let w = radio_next(v, now, RadioInput::ReceiveAir { packet, source_radio_id: source, end_time, captures }).0;
            let rid = v.next_reception_id;
            let (x, acts) = radio_next(
                w,
                done,
                RadioInput::Timer { timer_id: (TIMER_RX_COMPLETE_BASE + rid) as u64, signal_ok },
            );
            &&& w.receptions.len() == v.receptions.len() + 1
            &&& forall|i: int|
                0 <= i < v.receptions.len() ==> (#[trigger] w.receptions[i]).collided == (v.receptions[i].collided || (
                v.receptions[i].start_time@ < end_time@ && v.receptions[i].end_time@ > now@ && cs[i]
                    != Capture::EarlierSurvives))
            &&& acts.len() == 1
            &&& acts[0] matches RadioAction::RxPacket {
                packet: p,
                reception_id,
                was_collided,
                start_time,
                end_time: e,
                ..
            } && p == packet && reception_id == rid && start_time == now && e == end_time && (was_collided
                <==> exists|i: int|
                0 <= i < v.receptions.len() && (#[trigger] v.receptions[i]).start_time@ < end_time@
                    && v.receptions[i].end_time@ > now@ && cs[i] != Capture::LaterSurvives)
        }),
{
    let cs = captures@;
    let w = radio_next(v, now, RadioInput::ReceiveAir { packet, source_radio_id: source, end_time, captures }).0;
    let rid = v.next_reception_id;
    let n = v.receptions.len();
    assert(w.receptions[n as int].reception_id == rid);
    assert forall|i: int| 0 <= i < n implies (#[trigger] w.receptions[i]).reception_id != rid by {
        assert(w.receptions[i].reception_id == v.receptions[i].reception_id);
    }
    assert(reception_index(w.receptions, rid) == Some(n as int)) by {
        let k = choose|k: int| 0 <= k < w.receptions.len() && (#[trigger] w.receptions[k]).reception_id == rid;
        if k < n {
            assert(w.receptions[k].reception_id != rid);
        }
    }
    assert forall|i: int| 0 <= i < n implies (#[trigger] w.receptions[i]).collided == (v.receptions[i].collided || (
        v.receptions[i].start_time@ < end_time@ && v.receptions[i].end_time@ > now@ && cs[i]
            != Capture::EarlierSurvives)) by {
        assert(w.receptions[i] == earlier_marked(v.receptions[i], cs[i], now, end_time));
    }
}

} // verus!
