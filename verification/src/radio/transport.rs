//! The link as scheduled code drives it.
//!
//! A send transmits, then listens for the ack inside a fixed window; when the
//! window closes first, the same frame goes out again. A receive listens,
//! acknowledges every data frame and hands out the ones it has not seen.
//! One hardware operation is in flight at a time; its owner reports each
//! wake-up through `poll` and a closed window through `on_ack_timeout`.

use vstd::prelude::*;

use super::addresses::{Addresses, RadioConfig, ADDRESS_SLOTS};
use super::command::{Command, LogInfo, Outcome, RadioEvents, Step};
use super::packet::{Packet, PacketType, PacketView, FRAME_SIZE};
use super::protocol::{
    ack_frame, is_ack_for, is_data, lemma_data_frame, next_id, spec_ack_frame, spec_admit,
    spec_bump, spec_data_frame, spec_elapsed, spec_is_ack_for, spec_is_data, spec_next_id,
    ACK_DELAY_MICROS, ACK_WINDOW_MICROS,
};

verus! {

/// The handler of the radio interrupt.
pub struct InterruptHandler {}

impl InterruptHandler {
    /// What the radio interrupt does: it silences the radio's interrupt
    /// sources and resumes the task that waits on the radio.
    pub fn on_interrupt() -> (commands: Vec<Command>)
        ensures
            commands@ == seq![Command::MaskInterrupts, Command::Wake],
    {
        let mut commands = Vec::new();
        commands.push(Command::MaskInterrupts);
        commands.push(Command::Wake);
        commands
    }
}

/// What the radio is busy with.
#[derive(Clone, Copy, PartialEq, Eq, Structural, Debug)]
pub enum Phase {
    /// No operation is in flight.
    Idle,
    /// A data frame is going out.
    Sending,
    /// The data frame is out and the radio listens for its ack.
    AwaitingAck,
    /// The radio listens for a data frame.
    Receiving,
    /// A data frame has come in and its ack is going out.
    Acking,
}

/// The state of the link.
pub struct RadioView {
    pub config: RadioConfig,
    /// The logical address that this node transmits on.
    pub tx_address: u8,
    /// The logical addresses that this node listens on, one bit each.
    pub rx_addresses: u32,
    /// The id of the last frame delivered from each logical address.
    pub last_seen: Seq<u8>,
    /// The id of the last frame sent.
    pub tx_id: u8,
    pub phase: Phase,
    /// The frame being sent, or the frame being acknowledged.
    pub frame: Packet,
    pub retransmissions: u32,
    /// The clock at the start of the current attempt.
    pub start: u64,
}

/// The link as scheduled code drives it. It holds the sequence counter of
/// this node, the ids last seen from its peers, and what the operation in
/// flight needs to go on.
pub struct Radio {
    config: RadioConfig,
    tx_addresses: u8,
    rx_addresses: u32,
    rx_id: [u8; ADDRESS_SLOTS],
    tx_id: u8,
    phase: Phase,
    frame: Packet,
    retransmissions: u32,
    start: u64,
}

/// The commands that transmit `frame`.
pub open spec fn spec_arm_tx(frame: Packet) -> Seq<Command> {
    seq![
        Command::LoadFrame(frame),
        Command::EnableShortcuts,
        Command::StartTx,
        Command::MaskInterrupts,
        Command::UnmaskDisabledInterrupt,
    ]
}

/// The commands that start listening.
pub open spec fn spec_arm_rx() -> Seq<Command> {
    seq![
        Command::EnableShortcuts,
        Command::PointAtReceiveBuffer,
        Command::StartRx,
        Command::MaskInterrupts,
        Command::UnmaskDisabledInterrupt,
    ]
}

/// The commands that force the radio to idle and drop a stale completion.
pub open spec fn spec_teardown() -> Seq<Command> {
    seq![Command::Disable, Command::AwaitDisabled, Command::ClearDisabledEvent]
}

/// The commands that take note of a finished reception.
pub open spec fn spec_finish_rx(crc_ok: bool) -> Seq<Command> {
    if crc_ok {
        seq![Command::ClearDisabledEvent, Command::ClearCrcOkEvent]
    } else {
        seq![Command::ClearDisabledEvent]
    }
}

fn push_arm_tx(commands: &mut Vec<Command>, frame: Packet)
    ensures
        final(commands)@ == old(commands)@ + spec_arm_tx(frame),
{
    commands.push(Command::LoadFrame(frame));
    commands.push(Command::EnableShortcuts);
    commands.push(Command::StartTx);
    commands.push(Command::MaskInterrupts);
    commands.push(Command::UnmaskDisabledInterrupt);
}

fn push_arm_rx(commands: &mut Vec<Command>)
    ensures
        final(commands)@ == old(commands)@ + spec_arm_rx(),
{
    commands.push(Command::EnableShortcuts);
    commands.push(Command::PointAtReceiveBuffer);
    commands.push(Command::StartRx);
    commands.push(Command::MaskInterrupts);
    commands.push(Command::UnmaskDisabledInterrupt);
}

fn push_teardown(commands: &mut Vec<Command>)
    ensures
        final(commands)@ == old(commands)@ + spec_teardown(),
{
    commands.push(Command::Disable);
    commands.push(Command::AwaitDisabled);
    commands.push(Command::ClearDisabledEvent);
}

fn push_finish_rx(commands: &mut Vec<Command>, crc_ok: bool)
    ensures
        final(commands)@ == old(commands)@ + spec_finish_rx(crc_ok),
{
    commands.push(Command::ClearDisabledEvent);
    if crc_ok {
        commands.push(Command::ClearCrcOkEvent);
    }
}

impl RadioView {
    /// The node transmits on one of the logical addresses, the table of
    /// last seen ids has a slot for each of them, the held frame is a frame,
    /// and a frame being acknowledged was matched on one of them.
    pub open spec fn wf(self) -> bool {
        &&& self.tx_address < ADDRESS_SLOTS
        &&& self.last_seen.len() == ADDRESS_SLOTS
        &&& self.frame.wf()
        &&& self.phase == Phase::Acking ==> self.frame@.addr < ADDRESS_SLOTS
    }

    /// A link that has sent and seen nothing and is idle.
    pub open spec fn spec_new(addresses: Addresses) -> RadioView {
        RadioView {
            config: RadioConfig::spec_new(addresses),
            tx_address: 0,
            rx_addresses: 0,
            last_seen: Seq::new(ADDRESS_SLOTS as nat, |i: int| 0u8),
            tx_id: 0,
            phase: Phase::Idle,
            frame: spec_ack_frame(0, 0),
            retransmissions: 0,
            start: 0,
        }
    }

    /// The frame that a send of `packet` puts on the air: the packet under
    /// the next sequence id, with the type Data.
    pub open spec fn spec_outgoing(self, packet: Packet) -> Packet {
        spec_data_frame(packet, spec_next_id(self.tx_id))
    }

    /// The link once a send of `packet` has begun at `now`.
    pub open spec fn spec_send(self, packet: Packet, now: u64) -> (RadioView, Seq<Command>) {
        (
            RadioView {
                tx_id: spec_next_id(self.tx_id),
                phase: Phase::Sending,
                frame: self.spec_outgoing(packet),
                retransmissions: 0,
                start: now,
                ..self
            },
            spec_arm_tx(self.spec_outgoing(packet)),
        )
    }

    /// The link once it has begun to listen.
    pub open spec fn spec_receive(self) -> (RadioView, Seq<Command>) {
        (RadioView { phase: Phase::Receiving, ..self }, spec_arm_rx())
    }

    /// The link once the operation in flight, if any, has been given up.
    pub open spec fn spec_cancel(self) -> (RadioView, Seq<Command>) {
        if self.phase == Phase::Idle {
            (self, Seq::empty())
        } else {
            (RadioView { phase: Phase::Idle, ..self }, spec_teardown())
        }
    }

    /// The link once the ack window has closed at `now`. While an ack is
    /// awaited the listening is torn down and the frame goes out again; at
    /// any other time a closed window means nothing.
    pub open spec fn spec_on_ack_timeout(self, now: u64) -> (RadioView, Seq<Command>) {
        if self.phase == Phase::AwaitingAck {
            (
                RadioView {
                    phase: Phase::Sending,
                    retransmissions: spec_bump(self.retransmissions),
                    start: now,
                    ..self
                },
                spec_teardown() + spec_arm_tx(self.frame),
            )
        } else {
            (self, Seq::empty())
        }
    }

    /// Whether the buffer `received` holds the ack that settles the send in
    /// flight.
    pub open spec fn spec_settled_by(self, events: RadioEvents, received: [u8; FRAME_SIZE])
        -> bool {
        &&& events.crc_ok
        &&& Packet::spec_from_bytes(events.rx_match, received) matches Some(ack)
        &&& spec_is_ack_for(ack, self.frame@.id, self.tx_address)
    }

    /// Whether the buffer `received` holds a data frame that the link takes.
    pub open spec fn spec_takes(events: RadioEvents, received: [u8; FRAME_SIZE]) -> bool {
        &&& events.crc_ok
        &&& events.rx_match < ADDRESS_SLOTS
        &&& Packet::spec_from_bytes(events.rx_match, received) matches Some(data)
        &&& spec_is_data(data)
    }

    /// The link after a wake-up with the flags `events`, the receive buffer
    /// `received` and the clock at `now`, the commands that the wake-up
    /// calls for and what it hands out.
    pub open spec fn spec_poll(self, events: RadioEvents, received: [u8; FRAME_SIZE], now: u64) -> (
        RadioView,
        Seq<Command>,
        Outcome,
    ) {
        if self.phase == Phase::Idle {
            (self, Seq::empty(), Outcome::Pending)
        } else if !events.disabled {
            (self, seq![Command::UnmaskDisabledInterrupt], Outcome::Pending)
        } else {
            match self.phase {
                Phase::Idle => (self, Seq::empty(), Outcome::Pending),
                Phase::Sending => (
                    RadioView { phase: Phase::AwaitingAck, ..self },
                    seq![Command::ClearDisabledEvent, Command::OpenAckWindow(ACK_WINDOW_MICROS)]
                        + spec_arm_rx(),
                    Outcome::Pending,
                ),
                Phase::AwaitingAck => if self.spec_settled_by(events, received) {
                    (
                        RadioView { phase: Phase::Idle, ..self },
                        spec_finish_rx(true),
                        Outcome::Sent(
                            LogInfo {
                                retransmissions: self.retransmissions,
                                time_elapsed: spec_elapsed(self.start, now),
                            },
                        ),
                    )
                } else {
                    (self, spec_finish_rx(events.crc_ok) + spec_arm_rx(), Outcome::Pending)
                },
                Phase::Receiving => if Self::spec_takes(events, received) {
                    let data = Packet::spec_from_bytes(events.rx_match, received).unwrap();
                    (
                        RadioView { phase: Phase::Acking, frame: data, ..self },
                        spec_finish_rx(true) + seq![Command::Delay(ACK_DELAY_MICROS)] + spec_arm_tx(
                            spec_ack_frame(data@.id, events.rx_match),
                        ),
                        Outcome::Pending,
                    )
                } else {
                    (self, spec_finish_rx(events.crc_ok) + spec_arm_rx(), Outcome::Pending)
                },
                Phase::Acking => if spec_admit(self.last_seen, self.frame@.addr, self.frame@.id).1 {
                    (
                        RadioView {
                            phase: Phase::Idle,
                            last_seen: spec_admit(
                                self.last_seen,
                                self.frame@.addr,
                                self.frame@.id,
                            ).0,
                            ..self
                        },
                        seq![Command::ClearDisabledEvent],
                        Outcome::Received(self.frame),
                    )
                } else {
                    (
                        RadioView { phase: Phase::Receiving, ..self },
                        seq![Command::ClearDisabledEvent] + spec_arm_rx(),
                        Outcome::Pending,
                    )
                },
            }
        }
    }
}

impl View for Radio {
    type V = RadioView;

    closed spec fn view(&self) -> RadioView {
        RadioView {
            config: self.config,
            tx_address: self.tx_addresses,
            rx_addresses: self.rx_addresses,
            last_seen: self.rx_id@,
            tx_id: self.tx_id,
            phase: self.phase,
            frame: self.frame,
            retransmissions: self.retransmissions,
            start: self.start,
        }
    }
}

impl Radio {
    #[verifier::type_invariant]
    spec fn inv(&self) -> bool {
        self@.wf()
    }

    /// A link for the given addresses that has sent and seen nothing.
    pub fn new(addresses: Addresses) -> (radio: Radio)
        ensures
            radio@ == RadioView::spec_new(addresses),
            radio@.wf(),
    {
        let radio = Radio {
            config: RadioConfig::new(&addresses),
            tx_addresses: 0,
            rx_addresses: 0,
            rx_id: [0u8; ADDRESS_SLOTS],
            tx_id: 0,
            phase: Phase::Idle,
            frame: ack_frame(0, 0),
            retransmissions: 0,
            start: 0,
        };
        assert(radio@.last_seen =~= RadioView::spec_new(addresses).last_seen);
        radio
    }

    /// The register values that set the radio up for this link.
    pub fn config(&self) -> (config: RadioConfig)
        ensures
            config == self@.config,
    {
        self.config
    }

    /// Chooses the logical address to transmit on. The radio has eight, so
    /// only the low three bits of `tx_address` count.
    pub fn set_tx_addresses(&mut self, tx_address: u8)
        ensures
            final(self)@ == (RadioView { tx_address: tx_address % 8, ..old(self)@ }),
    {
        proof {
            use_type_invariant(&*self);
        }
        self.tx_addresses = tx_address % 8;
    }

    /// Chooses the logical addresses to listen on, one bit each. The radio
    /// has eight, so only the low eight bits of `rx_addresses` count.
    pub fn set_rx_addresses(&mut self, rx_addresses: u32)
        ensures
            final(self)@ == (RadioView { rx_addresses: rx_addresses % 256, ..old(self)@ }),
    {
        proof {
            use_type_invariant(&*self);
        }
        self.rx_addresses = rx_addresses % 256;
    }

    /// The logical address that this node transmits on.
    pub fn tx_addresses(&self) -> (tx_address: u8)
        ensures
            tx_address == self@.tx_address,
    {
        self.tx_addresses
    }

    /// The logical addresses that this node listens on, one bit each.
    pub fn rx_addresses(&self) -> (rx_addresses: u32)
        ensures
            rx_addresses == self@.rx_addresses,
    {
        self.rx_addresses
    }

    /// Whether no operation is in flight.
    pub fn is_idle(&self) -> (idle: bool)
        ensures
            idle == (self@.phase == Phase::Idle),
    {
        match self.phase {
            Phase::Idle => true,
            _ => false,
        }
    }

    /// What the radio is busy with.
    pub fn phase(&self) -> (phase: Phase)
        ensures
            phase == self@.phase,
    {
        self.phase
    }

    /// Begins to send `packet`: gives it the next sequence id and the type
    /// Data and puts it on the air. The send is over when `poll` hands out
    /// `Outcome::Sent`.
    pub fn send(&mut self, packet: &mut Packet, now: u64) -> (commands: Vec<Command>)
        requires
            old(self)@.phase == Phase::Idle,
        ensures
            *final(packet) == old(self)@.spec_outgoing(*old(packet)),
            final(packet)@ == (PacketView {
                id: spec_next_id(old(self)@.tx_id),
                type_byte: PacketType::Data.spec_to_byte(),
                ..old(packet)@
            }),
            (final(self)@, commands@) == old(self)@.spec_send(*old(packet), now),
            final(self)@.wf(),
    {
        proof {
            use_type_invariant(&*self);
            use_type_invariant(&*packet);
            lemma_data_frame(*packet, spec_next_id(self.tx_id));
        }
        let id = next_id(self.tx_id);
        packet.set_id(id);
        packet.set_type(PacketType::Data);
        self.tx_id = id;
        self.frame = *packet;
        self.retransmissions = 0;
        self.start = now;
        self.phase = Phase::Sending;
        let mut commands = Vec::new();
        push_arm_tx(&mut commands, *packet);
        commands
    }

    /// Begins to listen for a data frame. The receive is over when `poll`
    /// hands out `Outcome::Received`.
    pub fn receive(&mut self) -> (commands: Vec<Command>)
        requires
            old(self)@.phase == Phase::Idle,
        ensures
            (final(self)@, commands@) == old(self)@.spec_receive(),
            final(self)@.wf(),
    {
        proof {
            use_type_invariant(&*self);
        }
        self.phase = Phase::Receiving;
        let mut commands = Vec::new();
        push_arm_rx(&mut commands);
        commands
    }

    /// Gives up the operation in flight, if there is one: the radio is
    /// forced to idle and a stale completion is dropped, so that the next
    /// operation starts from a known state.
    pub fn cancel(&mut self) -> (commands: Vec<Command>)
        ensures
            (final(self)@, commands@) == old(self)@.spec_cancel(),
            final(self)@.phase == Phase::Idle,
            final(self)@.wf(),
    {
        proof {
            use_type_invariant(&*self);
        }
        let mut commands = Vec::new();
        if !self.is_idle() {
            self.phase = Phase::Idle;
            push_teardown(&mut commands);
        }
        commands
    }

    /// Reports that the ack window has closed.
    pub fn on_ack_timeout(&mut self, now: u64) -> (commands: Vec<Command>)
        ensures
            (final(self)@, commands@) == old(self)@.spec_on_ack_timeout(now),
            final(self)@.wf(),
    {
        proof {
            use_type_invariant(&*self);
        }
        let mut commands = Vec::new();
        match self.phase {
            Phase::AwaitingAck => {
                if self.retransmissions < u32::MAX {
                    self.retransmissions = self.retransmissions + 1;
                }
                self.start = now;
                self.phase = Phase::Sending;
                push_teardown(&mut commands);
                push_arm_tx(&mut commands, self.frame);
            },
            _ => {},
        }
        commands
    }

    /// Answers a wake-up of the task that waits on the radio. `events` are
    /// the radio's flags as just read, `received` is the receive buffer and
    /// `now` the clock.
    pub fn poll(&mut self, events: RadioEvents, received: &[u8; FRAME_SIZE], now: u64) -> (step:
        Step)
        ensures
            (final(self)@, step.commands@, step.outcome) == old(self)@.spec_poll(
                events,
                *received,
                now,
            ),
            final(self)@.wf(),
    {
        proof {
            use_type_invariant(&*self);
        }
        let mut commands = Vec::new();
        if self.is_idle() {
            return Step { commands, outcome: Outcome::Pending };
        }
        if !events.disabled {
            commands.push(Command::UnmaskDisabledInterrupt);
            return Step { commands, outcome: Outcome::Pending };
        }
        match self.phase {
            Phase::Idle => Step { commands, outcome: Outcome::Pending },
            Phase::Sending => {
                self.phase = Phase::AwaitingAck;
                commands.push(Command::ClearDisabledEvent);
                commands.push(Command::OpenAckWindow(ACK_WINDOW_MICROS));
                push_arm_rx(&mut commands);
                Step { commands, outcome: Outcome::Pending }
            },
            Phase::AwaitingAck => {
                if self.settled_by(events, received) {
                    self.phase = Phase::Idle;
                    push_finish_rx(&mut commands, true);
                    let time_elapsed = if now >= self.start {
                        now - self.start
                    } else {
                        0
                    };
                    let info = LogInfo { retransmissions: self.retransmissions, time_elapsed };
                    Step { commands, outcome: Outcome::Sent(info) }
                } else {
                    push_finish_rx(&mut commands, events.crc_ok);
                    push_arm_rx(&mut commands);
                    Step { commands, outcome: Outcome::Pending }
                }
            },
            Phase::Receiving => {
                match Self::take(events, received) {
                    Some(data) => {
                        self.frame = data;
                        self.phase = Phase::Acking;
                        push_finish_rx(&mut commands, true);
                        commands.push(Command::Delay(ACK_DELAY_MICROS));
                        push_arm_tx(&mut commands, ack_frame(data.id(), events.rx_match));
                        Step { commands, outcome: Outcome::Pending }
                    },
                    None => {
                        push_finish_rx(&mut commands, events.crc_ok);
                        push_arm_rx(&mut commands);
                        Step { commands, outcome: Outcome::Pending }
                    },
                }
            },
            Phase::Acking => {
                let addr = self.frame.addr() as usize;
                let id = self.frame.id();
                commands.push(Command::ClearDisabledEvent);
                if self.rx_id[addr] != id {
                    self.phase = Phase::Idle;
                    self.rx_id[addr] = id;
                    Step { commands, outcome: Outcome::Received(self.frame) }
                } else {
                    self.phase = Phase::Receiving;
                    push_arm_rx(&mut commands);
                    Step { commands, outcome: Outcome::Pending }
                }
            },
        }
    }

    /// Whether the receive buffer holds the ack that settles the send in
    /// flight.
    fn settled_by(&self, events: RadioEvents, received: &[u8; FRAME_SIZE]) -> (settled: bool)
        ensures
            settled == self@.spec_settled_by(events, *received),
    {
        if !events.crc_ok {
            return false;
        }
        match Packet::from_bytes(events.rx_match, *received) {
            Some(ack) => is_ack_for(&ack, self.frame.id(), self.tx_addresses),
            None => false,
        }
    }

    /// The data frame in the receive buffer, if it holds one that the link
    /// takes.
    fn take(events: RadioEvents, received: &[u8; FRAME_SIZE]) -> (data: Option<Packet>)
        ensures
            data is Some <==> RadioView::spec_takes(events, *received),
            data is Some ==> data == Packet::spec_from_bytes(events.rx_match, *received),
            data matches Some(d) ==> d.wf() && d@.addr == events.rx_match,
    {
        if !events.crc_ok || events.rx_match as usize >= ADDRESS_SLOTS {
            return None;
        }
        match Packet::from_bytes(events.rx_match, *received) {
            Some(data) => if is_data(&data) {
                Some(data)
            } else {
                None
            },
            None => None,
        }
    }
}

} // verus!
