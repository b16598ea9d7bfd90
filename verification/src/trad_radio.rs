//! The link as its interrupt handlers drive it.
//!
//! Every step of an attempt (transmit, wait for the ack, retry, listen,
//! acknowledge, tell a repeat from a new frame) is taken in the radio
//! interrupt or in the interrupt of the countdown timer that paces the ack
//! window. Scheduled code only files a request and waits to be told the
//! outcome.

use vstd::prelude::*;

use crate::radio::addresses::{RadioConfig, TimerConfig, ADDRESS_SLOTS};
use crate::radio::command::{Command, LogInfo, Outcome, RadioEvents, Step};
use crate::radio::packet::{Packet, PacketType, PacketView, FRAME_SIZE};
use crate::radio::protocol::{
    ack_frame, is_ack_for, is_data, lemma_data_frame, next_id, spec_ack_frame, spec_admit,
    spec_bump, spec_data_frame, spec_elapsed, spec_is_ack_for, spec_is_data, spec_next_id,
};
pub use crate::radio::addresses::Addresses;

pub mod laws;

verus! {

/// Where an attempt stands.
#[derive(Clone, Copy, PartialEq, Eq, Structural, Debug)]
pub enum RadioState {
    /// Nothing is asked of the radio.
    Disabled,
    /// A data frame is going out.
    Tx,
    /// The data frame is out and the radio listens for its ack.
    TxAck,
    /// The radio listens for a data frame.
    Rx,
    /// A data frame has come in and its ack is going out.
    RxAck,
}

/// The state of the link.
pub struct TradRadioView {
    pub config: RadioConfig,
    pub timer: TimerConfig,
    /// The logical address that this node transmits on.
    pub tx_address: u8,
    /// The logical addresses that this node listens on, one bit each.
    pub rx_addresses: u32,
    pub state: RadioState,
    /// The frame being sent, or the frame being acknowledged.
    pub current: Packet,
    /// The id of the last frame sent.
    pub tx_id: u8,
    /// The id of the last frame delivered from each logical address.
    pub last_seen: Seq<u8>,
    /// The clock at the start of the current attempt.
    pub start: u64,
    /// How often the frame in flight has gone out again.
    pub count: u32,
}

/// The link as its interrupt handlers drive it. It holds the sequence
/// counter of this node, the ids last seen from its peers, and where the
/// attempt in flight stands.
pub struct TradRadio {
    config: RadioConfig,
    timer: TimerConfig,
    tx_addresses: u8,
    rx_addresses: u32,
    state: RadioState,
    current: Packet,
    tx_id: u8,
    rx_id: [u8; ADDRESS_SLOTS],
    start: u64,
    count: u32,
}

/// The handler of the radio interrupt.
pub struct TradInterruptHandler {}

/// The handler of the interrupt of the countdown timer.
pub struct RadioTimerInterrupt;

impl TradRadioView {
    /// The node transmits on one of the logical addresses, the table of
    /// last seen ids has a slot for each of them, the held frame is a frame,
    /// and a frame being acknowledged was matched on one of them.
    pub open spec fn wf(self) -> bool {
        &&& self.tx_address < ADDRESS_SLOTS
        &&& self.last_seen.len() == ADDRESS_SLOTS
        &&& self.current.wf()
        &&& self.state == RadioState::RxAck ==> self.current@.addr < ADDRESS_SLOTS
    }

    /// A link that has sent and seen nothing and is at rest.
    pub open spec fn spec_new(addresses: Addresses) -> TradRadioView {
        TradRadioView {
            config: RadioConfig::spec_new(addresses),
            timer: TimerConfig::spec_new(),
            tx_address: 0,
            rx_addresses: 0,
            state: RadioState::Disabled,
            current: spec_ack_frame(0, 0),
            tx_id: 0,
            last_seen: Seq::new(ADDRESS_SLOTS as nat, |i: int| 0u8),
            start: 0,
            count: 0,
        }
    }

    /// The frame that a send of `packet` puts on the air: the packet under
    /// the next sequence id, with the type Data.
    pub open spec fn spec_outgoing(self, packet: Packet) -> Packet {
        spec_data_frame(packet, spec_next_id(self.tx_id))
    }

    /// The link once a send of `packet` has been filed at `now`.
    pub open spec fn spec_send_packet(self, packet: Packet, now: u64) -> (
        TradRadioView,
        Seq<Command>,
    ) {
        (
            TradRadioView {
                state: RadioState::Tx,
                current: self.spec_outgoing(packet),
                tx_id: spec_next_id(self.tx_id),
                start: now,
                count: 0,
                ..self
            },
            seq![Command::LoadFrame(self.spec_outgoing(packet)), Command::StartTx],
        )
    }

    /// The link once a receive has been filed.
    pub open spec fn spec_receive_packet(self) -> (TradRadioView, Seq<Command>) {
        (
            TradRadioView { state: RadioState::Rx, ..self },
            seq![Command::PointAtReceiveBuffer, Command::StartRx],
        )
    }

    /// Whether the buffer `received` holds the ack that settles the send in
    /// flight.
    pub open spec fn spec_settled_by(self, events: RadioEvents, received: [u8; FRAME_SIZE])
        -> bool {
        &&& Packet::spec_from_bytes(events.rx_match, received) matches Some(ack)
        &&& spec_is_ack_for(ack, self.current@.id, self.tx_address)
    }

    /// Whether the buffer `received` holds a data frame that the link takes.
    pub open spec fn spec_takes(events: RadioEvents, received: [u8; FRAME_SIZE]) -> bool {
        &&& events.rx_match < ADDRESS_SLOTS
        &&& Packet::spec_from_bytes(events.rx_match, received) matches Some(data)
        &&& spec_is_data(data)
    }

    /// The link after a radio interrupt with the flags `events`, the receive
    /// buffer `received` and the clock at `now`, the commands that the
    /// interrupt calls for and what it hands out.
    pub open spec fn spec_on_radio(self, events: RadioEvents, received: [u8; FRAME_SIZE], now: u64)
        -> (TradRadioView, Seq<Command>, Outcome) {
        if self.state == RadioState::Disabled || !events.disabled {
            (self, Seq::empty(), Outcome::Pending)
        } else {
            match self.state {
                RadioState::Disabled => (self, Seq::empty(), Outcome::Pending),
                RadioState::Tx => (
                    TradRadioView { state: RadioState::TxAck, ..self },
                    seq![
                        Command::ClearDisabledEvent,
                        Command::PointAtReceiveBuffer,
                        Command::StartTimer,
                        Command::StartRx,
                    ],
                    Outcome::Pending,
                ),
                RadioState::TxAck => if !events.crc_ok {
                    (
                        TradRadioView {
                            state: RadioState::Tx,
                            count: spec_bump(self.count),
                            start: now,
                            ..self
                        },
                        seq![
                            Command::ClearDisabledEvent,
                            Command::LoadFrame(self.current),
                            Command::StopTimer,
                            Command::StartTx,
                        ],
                        Outcome::Pending,
                    )
                } else if self.spec_settled_by(events, received) {
                    (
                        TradRadioView { state: RadioState::Disabled, ..self },
                        seq![
                            Command::ClearDisabledEvent,
                            Command::ClearCrcOkEvent,
                            Command::StopTimer,
                        ],
                        Outcome::Sent(
                            LogInfo {
                                retransmissions: self.count,
                                time_elapsed: spec_elapsed(self.start, now),
                            },
                        ),
                    )
                } else {
                    (
                        self,
                        seq![Command::ClearDisabledEvent, Command::ClearCrcOkEvent],
                        Outcome::Pending,
                    )
                },
                RadioState::Rx => if !events.crc_ok {
                    (self, seq![Command::ClearDisabledEvent, Command::StartRx], Outcome::Pending)
                } else if Self::spec_takes(events, received) {
                    let data = Packet::spec_from_bytes(events.rx_match, received).unwrap();
                    (
                        TradRadioView { state: RadioState::RxAck, current: data, ..self },
                        seq![
                            Command::ClearDisabledEvent,
                            Command::ClearCrcOkEvent,
                            Command::LoadFrame(spec_ack_frame(data@.id, events.rx_match)),
                            Command::StartTx,
                        ],
                        Outcome::Pending,
                    )
                } else {
                    (
                        self,
                        seq![
                            Command::ClearDisabledEvent,
                            Command::ClearCrcOkEvent,
                            Command::StartRx,
                        ],
                        Outcome::Pending,
                    )
                },
                RadioState::RxAck => if spec_admit(
                    self.last_seen,
                    self.current@.addr,
                    self.current@.id,
                ).1 {
                    (
                        TradRadioView {
                            state: RadioState::Disabled,
                            last_seen: spec_admit(
                                self.last_seen,
                                self.current@.addr,
                                self.current@.id,
                            ).0,
                            ..self
                        },
                        seq![Command::ClearDisabledEvent],
                        Outcome::Received(self.current),
                    )
                } else {
                    (
                        TradRadioView { state: RadioState::Rx, ..self },
                        seq![
                            Command::ClearDisabledEvent,
                            Command::PointAtReceiveBuffer,
                            Command::StartRx,
                        ],
                        Outcome::Pending,
                    )
                },
            }
        }
    }

    /// The link after a timer interrupt that finds the compare flag as
    /// `compare` and the clock at `now`, and the commands that the interrupt
    /// calls for. While an ack is awaited an expired countdown forces the
    /// radio to idle and sends the frame again; at any other time the
    /// interrupt only puts the timer to rest.
    pub open spec fn spec_on_timer(self, compare: bool, now: u64) -> (TradRadioView, Seq<Command>) {
        if self.state == RadioState::TxAck {
            if compare {
                (
                    TradRadioView {
                        state: RadioState::Tx,
                        count: spec_bump(self.count),
                        start: now,
                        ..self
                    },
                    seq![
                        Command::StopTimer,
                        Command::ClearTimer,
                        Command::ClearCompareEvent,
                        Command::Disable,
                        Command::AwaitDisabled,
                        Command::ClearDisabledEvent,
                        Command::LoadFrame(self.current),
                        Command::StartTx,
                    ],
                )
            } else {
                (self, seq![Command::StopTimer, Command::ClearTimer])
            }
        } else if compare {
            (self, seq![Command::ClearCompareEvent, Command::StopTimer, Command::ClearTimer])
        } else {
            (self, seq![Command::StopTimer, Command::ClearTimer])
        }
    }
}

impl View for TradRadio {
    type V = TradRadioView;

    closed spec fn view(&self) -> TradRadioView {
        TradRadioView {
            config: self.config,
            timer: self.timer,
            tx_address: self.tx_addresses,
            rx_addresses: self.rx_addresses,
            state: self.state,
            current: self.current,
            tx_id: self.tx_id,
            last_seen: self.rx_id@,
            start: self.start,
            count: self.count,
        }
    }
}

impl TradRadio {
    #[verifier::type_invariant]
    spec fn inv(&self) -> bool {
        self@.wf()
    }

    /// A link for the given addresses that has sent and seen nothing.
    pub fn new(addresses: Addresses) -> (radio: TradRadio)
        ensures
            radio@ == TradRadioView::spec_new(addresses),
            radio@.wf(),
    {
        let radio = TradRadio {
            config: RadioConfig::new(&addresses),
            timer: TimerConfig::new(),
            tx_addresses: 0,
            rx_addresses: 0,
            state: RadioState::Disabled,
            current: ack_frame(0, 0),
            tx_id: 0,
            rx_id: [0u8; ADDRESS_SLOTS],
            start: 0,
            count: 0,
        };
        assert(radio@.last_seen =~= TradRadioView::spec_new(addresses).last_seen);
        radio
    }

    /// The register values that set the radio up for this link.
    pub fn config(&self) -> (config: RadioConfig)
        ensures
            config == self@.config,
    {
        self.config
    }

    /// The register values that set the countdown timer up.
    pub fn timer_config(&self) -> (timer: TimerConfig)
        ensures
            timer == self@.timer,
    {
        self.timer
    }

    /// What is set once, before the first request: the shortcuts that run a
    /// whole operation from one task, and the interrupt at its end.
    pub fn start_up(&self) -> (commands: Vec<Command>)
        ensures
            commands@ == seq![Command::EnableShortcuts, Command::UnmaskDisabledInterrupt],
    {
        let mut commands = Vec::new();
        commands.push(Command::EnableShortcuts);
        commands.push(Command::UnmaskDisabledInterrupt);
        commands
    }

    /// Chooses the logical address to transmit on. The radio has eight, so
    /// only the low three bits of `tx_address` count.
    pub fn set_tx_addresses(&mut self, tx_address: u8)
        ensures
            final(self)@ == (TradRadioView { tx_address: tx_address % 8, ..old(self)@ }),
    {
        proof {
            use_type_invariant(&*self);
        }
        self.tx_addresses = tx_address % 8;
    }

    /// Chooses the logical addresses to listen on, one bit each. The radio
    /// has eight, so only the low eight bits of `rx_addresses` count.
    pub fn set_rx_addresses(&mut self, rx_addresses: u32)
        ensures
            final(self)@ == (TradRadioView { rx_addresses: rx_addresses % 256, ..old(self)@ }),
    {
        proof {
            use_type_invariant(&*self);
        }
        self.rx_addresses = rx_addresses % 256;
    }

    /// Whether nothing is asked of the radio.
    pub fn is_idle(&self) -> (idle: bool)
        ensures
            idle == (self@.state == RadioState::Disabled),
    {
        match self.state {
            RadioState::Disabled => true,
            _ => false,
        }
    }

    /// Where the attempt in flight stands.
    pub fn state(&self) -> (state: RadioState)
        ensures
            state == self@.state,
    {
        self.state
    }

    /// The logical address that this node transmits on.
    pub fn tx_addresses(&self) -> (tx_address: u8)
        ensures
            tx_address == self@.tx_address,
    {
        self.tx_addresses
    }

    /// The logical addresses that this node listens on, one bit each.
    pub fn rx_addresses(&self) -> (rx_addresses: u32)
        ensures
            rx_addresses == self@.rx_addresses,
    {
        self.rx_addresses
    }

    /// Files a receive. The frame is handed out by the radio interrupt that
    /// finishes it.
    pub fn receive_packet(&mut self) -> (commands: Vec<Command>)
        requires
            old(self)@.state == RadioState::Disabled,
        ensures
            (final(self)@, commands@) == old(self)@.spec_receive_packet(),
            final(self)@.wf(),
    {
        proof {
            use_type_invariant(&*self);
        }
        self.state = RadioState::Rx;
        let mut commands = Vec::new();
        commands.push(Command::PointAtReceiveBuffer);
        commands.push(Command::StartRx);
        commands
    }

    /// Files a send of `packet` under the next sequence id. Its outcome is
    /// handed out by the radio interrupt that takes the ack.
    pub fn send_packet(&mut self, packet: Packet, now: u64) -> (commands: Vec<Command>)
        requires
            old(self)@.state == RadioState::Disabled,
        ensures
            final(self)@.current@ == (PacketView {
                id: spec_next_id(old(self)@.tx_id),
                type_byte: PacketType::Data.spec_to_byte(),
                ..packet@
            }),
            (final(self)@, commands@) == old(self)@.spec_send_packet(packet, now),
            final(self)@.wf(),
    {
        proof {
            use_type_invariant(&*self);
            use_type_invariant(&packet);
            lemma_data_frame(packet, spec_next_id(self.tx_id));
        }
        let id = next_id(self.tx_id);
        let mut sent = packet;
        sent.set_id(id);
        sent.set_type(PacketType::Data);
        self.tx_id = id;
        self.current = sent;
        self.state = RadioState::Tx;
        self.start = now;
        self.count = 0;
        let mut commands = Vec::new();
        commands.push(Command::LoadFrame(sent));
        commands.push(Command::StartTx);
        commands
    }

    /// Whether the receive buffer holds the ack that settles the send in
    /// flight.
    fn settled_by(&self, events: RadioEvents, received: &[u8; FRAME_SIZE]) -> (settled: bool)
        ensures
            settled == self@.spec_settled_by(events, *received),
    {
        match Packet::from_bytes(events.rx_match, *received) {
            Some(ack) => is_ack_for(&ack, self.current.id(), self.tx_addresses),
            None => false,
        }
    }

    /// The data frame in the receive buffer, if it holds one that the link
    /// takes.
    fn take(events: RadioEvents, received: &[u8; FRAME_SIZE]) -> (data: Option<Packet>)
        ensures
            data is Some <==> TradRadioView::spec_takes(events, *received),
            data is Some ==> data == Packet::spec_from_bytes(events.rx_match, *received),
            data matches Some(d) ==> d.wf() && d@.addr == events.rx_match,
    {
        if events.rx_match as usize >= ADDRESS_SLOTS {
            return None;
        }
        match Packet::from_bytes(events.rx_match, *received) {
            Some(data) => if is_data(&data) {
                Some(data)
            } else {
                None
            },
            None => None,
        }
    }

    /// One more retransmission at `now`.
    fn retry(&mut self, now: u64)
        requires
            old(self)@.state == RadioState::TxAck,
        ensures
            final(self)@ == (TradRadioView {
                state: RadioState::Tx,
                count: spec_bump(old(self)@.count),
                start: now,
                ..old(self)@
            }),
            final(self)@.wf(),
    {
        proof {
            use_type_invariant(&*self);
        }
        self.state = RadioState::Tx;
        if self.count < u32::MAX {
            self.count = self.count + 1;
        }
        self.start = now;
    }
}

impl TradInterruptHandler {
    /// Takes the step that the radio interrupt is due. `events` are the
    /// radio's flags as just read, `received` is the receive buffer and
    /// `now` the clock.
    pub fn on_interrupt(
        radio: &mut TradRadio,
        events: RadioEvents,
        received: &[u8; FRAME_SIZE],
        now: u64,
    ) -> (step: Step)
        ensures
            (final(radio)@, step.commands@, step.outcome) == old(radio)@.spec_on_radio(
                events,
                *received,
                now,
            ),
            final(radio)@.wf(),
    {
        proof {
            use_type_invariant(&*radio);
        }
        let mut commands = Vec::new();
        if radio.is_idle() || !events.disabled {
            return Step { commands, outcome: Outcome::Pending };
        }
        commands.push(Command::ClearDisabledEvent);
        match radio.state {
            RadioState::Disabled => Step { commands, outcome: Outcome::Pending },
            RadioState::Tx => {
                radio.state = RadioState::TxAck;
                commands.push(Command::PointAtReceiveBuffer);
                commands.push(Command::StartTimer);
                commands.push(Command::StartRx);
                Step { commands, outcome: Outcome::Pending }
            },
            RadioState::TxAck => {
                if !events.crc_ok {
                    radio.retry(now);
                    commands.push(Command::LoadFrame(radio.current));
                    commands.push(Command::StopTimer);
                    commands.push(Command::StartTx);
                    Step { commands, outcome: Outcome::Pending }
                } else {
                    commands.push(Command::ClearCrcOkEvent);
                    if radio.settled_by(events, received) {
                        let time_elapsed = if now >= radio.start {
                            now - radio.start
                        } else {
                            0
                        };
                        let info = LogInfo { retransmissions: radio.count, time_elapsed };
                        radio.state = RadioState::Disabled;
                        commands.push(Command::StopTimer);
                        Step { commands, outcome: Outcome::Sent(info) }
                    } else {
                        Step { commands, outcome: Outcome::Pending }
                    }
                }
            },
            RadioState::Rx => {
                if !events.crc_ok {
                    commands.push(Command::StartRx);
                    Step { commands, outcome: Outcome::Pending }
                } else {
                    commands.push(Command::ClearCrcOkEvent);
                    match TradRadio::take(events, received) {
                        Some(data) => {
                            radio.current = data;
                            radio.state = RadioState::RxAck;
                            commands.push(
                                Command::LoadFrame(ack_frame(data.id(), events.rx_match)),
                            );
                            commands.push(Command::StartTx);
                            Step { commands, outcome: Outcome::Pending }
                        },
                        None => {
                            commands.push(Command::StartRx);
                            Step { commands, outcome: Outcome::Pending }
                        },
                    }
                }
            },
            RadioState::RxAck => {
                let addr = radio.current.addr() as usize;
                let id = radio.current.id();
                if radio.rx_id[addr] != id {
                    radio.state = RadioState::Disabled;
                    radio.rx_id[addr] = id;
                    Step { commands, outcome: Outcome::Received(radio.current) }
                } else {
                    radio.state = RadioState::Rx;
                    commands.push(Command::PointAtReceiveBuffer);
                    commands.push(Command::StartRx);
                    Step { commands, outcome: Outcome::Pending }
                }
            },
        }
    }
}

impl RadioTimerInterrupt {
    /// Takes the step that the timer interrupt is due. `compare` is the
    /// timer's compare flag as just read and `now` the clock.
    pub fn on_interrupt(radio: &mut TradRadio, compare: bool, now: u64) -> (commands: Vec<Command>)
        ensures
            (final(radio)@, commands@) == old(radio)@.spec_on_timer(compare, now),
            final(radio)@.wf(),
    {
        proof {
            use_type_invariant(&*radio);
        }
        let mut commands = Vec::new();
        match radio.state {
            RadioState::TxAck => {
                commands.push(Command::StopTimer);
                commands.push(Command::ClearTimer);
                if compare {
                    commands.push(Command::ClearCompareEvent);
                    commands.push(Command::Disable);
                    commands.push(Command::AwaitDisabled);
                    commands.push(Command::ClearDisabledEvent);
                    radio.retry(now);
                    commands.push(Command::LoadFrame(radio.current));
                    commands.push(Command::StartTx);
                }
            },
            _ => {
                if compare {
                    commands.push(Command::ClearCompareEvent);
                }
                commands.push(Command::StopTimer);
                commands.push(Command::ClearTimer);
            },
        }
        commands
    }
}

} // verus!
