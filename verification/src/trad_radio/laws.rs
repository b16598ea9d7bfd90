//! What holds of the interrupt-driven link across several interrupts: a
//! payload comes out as it went in, a lost ack costs a retransmission but no
//! second delivery, frames come out in the order in which they went in, an
//! expired ack window leaves the radio ready for the retransmission, and no
//! operation is started before the last has ended.

use vstd::prelude::*;

use super::{RadioState, TradRadioView};
use crate::radio::addresses::ADDRESS_SLOTS;
use crate::radio::command::{Command, LogInfo, Outcome, RadioEvents};
use crate::radio::hardware::RadioHardware;
use crate::radio::laws::{spec_headers, spec_heard};
use crate::radio::packet::{Packet, BUFFER_SIZE, FRAME_SIZE};
use crate::radio::protocol::{
    lemma_ack_settles, lemma_data_frame, lemma_run_of_sends_all_delivered, spec_ack_frame,
    spec_admit, spec_admit_all, spec_bump, spec_data_frame, spec_elapsed, spec_is_data,
    spec_next_id, spec_nth_id, spec_run_of_sends,
};

verus! {

impl TradRadioView {
    /// The link once it listens: a link at rest starts to, a busy one stays
    /// as it is.
    pub open spec fn spec_listening(self) -> TradRadioView {
        if self.state == RadioState::Disabled {
            self.spec_receive_packet().0
        } else {
            self
        }
    }

    /// The listening link after `frame` has come in on `addr` and the
    /// answer to it has gone out, and what the link hands out.
    pub open spec fn spec_hear(self, addr: u8, frame: Packet, now: u64) -> (
        TradRadioView,
        Outcome,
    ) {
        let acking = self.spec_on_radio(spec_heard(addr), frame.spec_bytes(), now).0;
        let ended = acking.spec_on_radio(spec_heard(addr), frame.spec_bytes(), now);
        (ended.0, ended.2)
    }

    /// The link after `arrivals`, each an address and a frame, have come in
    /// one after the other while it listened, the positions in `arrivals`
    /// of the frames that it has handed out, and those frames as handed
    /// out.
    pub open spec fn spec_hear_all(self, arrivals: Seq<(u8, Packet)>, now: u64) -> (
        TradRadioView,
        Seq<int>,
        Seq<Packet>,
    )
        decreases arrivals.len(),
    {
        if arrivals.len() == 0 {
            (self, Seq::empty(), Seq::empty())
        } else {
            let (before, positions, handed) = self.spec_hear_all(arrivals.drop_last(), now);
            let (after, outcome) = before.spec_listening().spec_hear(
                arrivals.last().0,
                arrivals.last().1,
                now,
            );
            match outcome {
                Outcome::Received(frame) => (
                    after,
                    positions.push(arrivals.len() - 1),
                    handed.push(frame),
                ),
                _ => (after, positions, handed),
            }
        }
    }

    /// The sender after `packets` have been sent one after the other, each
    /// acknowledged at once, and the frames that went out.
    pub open spec fn spec_send_all(self, packets: Seq<Packet>, now: u64) -> (
        TradRadioView,
        Seq<Packet>,
    )
        decreases packets.len(),
    {
        if packets.len() == 0 {
            (self, Seq::empty())
        } else {
            let (before, frames) = self.spec_send_all(packets.drop_last(), now);
            let sending = before.spec_send_packet(packets.last(), now).0;
            (
                TradRadioView { state: RadioState::Disabled, ..sending },
                frames.push(before.spec_outgoing(packets.last())),
            )
        }
    }
}

/// A listening link answers every data frame with the ack for its id and
/// address, and hands the frame out, bytes unchanged, exactly when its id
/// is not the one last handed out from that address.
pub proof fn lemma_hear(link: TradRadioView, addr: u8, frame: Packet, now: u64)
    requires
        link.wf(),
        link.state == RadioState::Rx,
        addr < ADDRESS_SLOTS,
        frame.wf(),
        spec_is_data(frame),
    ensures
        ({
            let (acking, commands, pending) = link.spec_on_radio(
                spec_heard(addr),
                frame.spec_bytes(),
                now,
            );
            let (after, outcome) = link.spec_hear(addr, frame, now);
            let (table, novel) = spec_admit(link.last_seen, addr, frame@.id);
            &&& acking.state == RadioState::RxAck
            &&& commands == seq![
                Command::ClearDisabledEvent,
                Command::ClearCrcOkEvent,
                Command::LoadFrame(spec_ack_frame(frame@.id, addr)),
                Command::StartTx,
            ]
            &&& pending == Outcome::Pending
            &&& after.wf()
            &&& after.last_seen == table
            &&& after.tx_id == link.tx_id
            &&& after.tx_address == link.tx_address
            &&& novel ==> after.state == RadioState::Disabled && outcome is Received
            &&& outcome matches Outcome::Received(handed) ==> novel && handed.wire() == frame.wire()
                && handed@.addr == addr && handed@.id == frame@.id && handed@.payload
                == frame@.payload
            &&& !novel ==> after.state == RadioState::Rx && outcome == Outcome::Pending
        }),
{
    Packet::lemma_bytes_round_trip(frame);
    Packet::lemma_from_bytes(addr, frame.spec_bytes());
}

/// Round trip: a payload that fits a frame, once copied into a packet and
/// sent, is handed out by the peer that hears it as the same bytes.
pub proof fn lemma_round_trip(
    sender: TradRadioView,
    receiver: TradRadioView,
    before: Packet,
    payload: Seq<u8>,
    packet: Packet,
    now: u64,
)
    requires
        sender.wf(),
        sender.state == RadioState::Disabled,
        receiver.wf(),
        receiver.state == RadioState::Rx,
        before.wf(),
        payload.len() <= BUFFER_SIZE,
        packet.wf(),
        packet.wire() == Packet::with_payload(before.wire(), payload),
        receiver.last_seen[sender.tx_address as int] != spec_next_id(sender.tx_id),
    ensures
        ({
            let sent = sender.spec_outgoing(packet);
            &&& sender.spec_send_packet(packet, now).1[0] == Command::LoadFrame(sent)
            &&& sent@.payload == payload
            &&& receiver.spec_hear(sender.tx_address, sent, now).1 matches Outcome::Received(
                handed,
            ) && handed@.payload == payload && handed@.addr == sender.tx_address && handed@.id
                == spec_next_id(sender.tx_id)
        }),
{
    let sent = sender.spec_outgoing(packet);
    lemma_data_frame(packet, spec_next_id(sender.tx_id));
    lemma_hear(receiver, sender.tx_address, sent, now);
}

/// The ack that a receiver gives for a frame settles the send of that
/// frame: the sender that hears it with a good checksum is at rest again
/// and reports its retransmissions and the time of the last attempt. An ack
/// for another id or another address settles nothing.
pub proof fn lemma_ack_settles_send(
    sender: TradRadioView,
    id: u8,
    addr: u8,
    rx_match: u8,
    now: u64,
)
    requires
        sender.wf(),
        sender.state == RadioState::TxAck,
    ensures
        ({
            let ack = spec_ack_frame(id, addr);
            let (after, commands, outcome) = sender.spec_on_radio(
                spec_heard(rx_match),
                ack.spec_bytes(),
                now,
            );
            if id == sender.current@.id && addr == sender.tx_address {
                &&& after == (TradRadioView { state: RadioState::Disabled, ..sender })
                &&& commands == seq![
                    Command::ClearDisabledEvent,
                    Command::ClearCrcOkEvent,
                    Command::StopTimer,
                ]
                &&& outcome == Outcome::Sent(
                    LogInfo {
                        retransmissions: sender.count,
                        time_elapsed: spec_elapsed(sender.start, now),
                    },
                )
            } else {
                &&& after == sender
                &&& commands == seq![Command::ClearDisabledEvent, Command::ClearCrcOkEvent]
                &&& outcome == Outcome::Pending
            }
        }),
{
    lemma_ack_settles(id, addr, sender.current@.id, sender.tx_address);
    let ack = spec_ack_frame(id, addr);
    Packet::lemma_bytes_round_trip(ack);
    Packet::lemma_from_bytes(rx_match, ack.spec_bytes());
}

/// Ack loss, the sender's side, and cancellation safety: when the countdown
/// expires without the ack, the listening is given up in a way that leaves
/// any radio disabled with no completion left over, and then the very same
/// frame, under the same id, goes out again and one more retransmission is
/// counted.
pub proof fn lemma_timeout_retransmits_same_frame(
    sender: TradRadioView,
    radio: RadioHardware,
    now: u64,
)
    requires
        sender.wf(),
        sender.state == RadioState::TxAck,
    ensures
        ({
            let (after, commands) = sender.spec_on_timer(true, now);
            &&& after.wf()
            &&& after.state == RadioState::Tx
            &&& after.current == sender.current
            &&& after.tx_id == sender.tx_id
            &&& after.count == spec_bump(sender.count)
            &&& after.start == now
            &&& commands.subrange(3, 6) == seq![
                Command::Disable,
                Command::AwaitDisabled,
                Command::ClearDisabledEvent,
            ]
            &&& radio.spec_apply_all(commands.subrange(0, 6)).ready()
            &&& commands.subrange(6, 8) == seq![
                Command::LoadFrame(sender.current),
                Command::StartTx,
            ]
        }),
{
    let commands = sender.spec_on_timer(true, now).1;
    let head = commands.subrange(0, 4);
    let tail = commands.subrange(4, 6);
    assert(commands.subrange(0, 6) =~= head + tail);
    assert(tail =~= seq![commands[4], commands[5]]);
    lemma_apply_four(
        radio.spec_apply_all(head),
        commands[4],
        commands[5],
        commands[5],
        commands[5],
    );
    radio.lemma_apply_concat(head, tail);
}

/// Ack loss, the receiver's side: a frame that comes in again after it was
/// handed out is answered with the same ack every time and is never handed
/// out again.
pub proof fn lemma_ack_loss_idempotence(
    receiver: TradRadioView,
    addr: u8,
    frame: Packet,
    now: u64,
    later: u64,
)
    requires
        receiver.wf(),
        receiver.state == RadioState::Rx,
        addr < ADDRESS_SLOTS,
        frame.wf(),
        spec_is_data(frame),
    ensures
        ({
            let first = receiver.spec_hear(addr, frame, now).0.spec_listening();
            let (acking, commands, _) = first.spec_on_radio(
                spec_heard(addr),
                frame.spec_bytes(),
                later,
            );
            let (second, outcome) = first.spec_hear(addr, frame, later);
            &&& first.wf()
            &&& first.state == RadioState::Rx
            &&& first.last_seen[addr as int] == frame@.id
            &&& acking.state == RadioState::RxAck
            &&& commands[2] == Command::LoadFrame(spec_ack_frame(frame@.id, addr))
            &&& commands[3] == Command::StartTx
            &&& outcome == Outcome::Pending
            &&& second.state == RadioState::Rx
            &&& second.last_seen == first.last_seen
        }),
{
    lemma_hear(receiver, addr, frame, now);
    let first = receiver.spec_hear(addr, frame, now).0.spec_listening();
}

/// In-order delivery: of the data frames that come in, the link hands out
/// those that the rule of the last seen id admits. It hands them out in the
/// order in which they came in, each with the bytes that came in and the
/// address on which it was matched.
pub proof fn lemma_hear_all_in_order(link: TradRadioView, arrivals: Seq<(u8, Packet)>, now: u64)
    requires
        link.wf(),
        link.state == RadioState::Rx || link.state == RadioState::Disabled,
        forall|k: int|
            0 <= k < arrivals.len() ==> (#[trigger] arrivals[k]).0 < ADDRESS_SLOTS
                && arrivals[k].1.wf() && spec_is_data(arrivals[k].1),
    ensures
        ({
            let (after, positions, handed) = link.spec_hear_all(arrivals, now);
            &&& after.wf()
            &&& after.state == RadioState::Rx || after.state == RadioState::Disabled
            &&& after.tx_id == link.tx_id
            &&& after.tx_address == link.tx_address
            &&& (after.last_seen, positions) == spec_admit_all(
                link.last_seen,
                spec_headers(arrivals),
            )
            &&& forall|i: int|
                0 <= i < positions.len() ==> 0 <= #[trigger] positions[i] < arrivals.len()
            &&& forall|i: int, j: int|
                0 <= i < j < positions.len() ==> positions[i] < positions[j]
            &&& handed.len() == positions.len()
            &&& forall|i: int|
                0 <= i < handed.len() ==> (#[trigger] handed[i]).wire()
                    == arrivals[positions[i]].1.wire() && handed[i]@.addr
                    == arrivals[positions[i]].0 && handed[i]@.payload
                    == arrivals[positions[i]].1@.payload
        }),
    decreases arrivals.len(),
{
    let headers = spec_headers(arrivals);
    if arrivals.len() > 0 {
        let earlier = arrivals.drop_last();
        lemma_hear_all_in_order(link, earlier, now);
        assert(spec_headers(earlier) =~= headers.drop_last());
        let (before, earlier_positions, earlier_handed) = link.spec_hear_all(earlier, now);
        let last = arrivals.last();
        lemma_hear(before.spec_listening(), last.0, last.1, now);
    }
}

/// Sequence ids: the frames of sends made one after the other carry their
/// packets under ids that count up from the sender's and start over after
/// 255.
pub proof fn lemma_send_all(link: TradRadioView, packets: Seq<Packet>, now: u64)
    requires
        link.wf(),
        link.state == RadioState::Disabled,
        forall|k: int| 0 <= k < packets.len() ==> (#[trigger] packets[k]).wf(),
    ensures
        ({
            let (after, frames) = link.spec_send_all(packets, now);
            &&& after.wf()
            &&& after.state == RadioState::Disabled
            &&& after.tx_address == link.tx_address
            &&& after.last_seen == link.last_seen
            &&& after.tx_id == spec_nth_id(link.tx_id, packets.len())
            &&& frames.len() == packets.len()
            &&& forall|k: int|
                0 <= k < frames.len() ==> #[trigger] frames[k] == spec_data_frame(
                    packets[k],
                    spec_nth_id(link.tx_id, (k + 1) as nat),
                )
        }),
    decreases packets.len(),
{
    if packets.len() > 0 {
        let earlier = packets.drop_last();
        lemma_send_all(link, earlier, now);
        let (before, earlier_frames) = link.spec_send_all(earlier, now);
        lemma_data_frame(packets.last(), spec_next_id(before.tx_id));
    }
}

/// From end to end: however many packets a sender sends in a row, a peer
/// that hears each frame once hands out every one of them, in the order in
/// which they were sent, with the payload that went in, also where the ids
/// start over. All that is asked is that the peer has not last seen the
/// first id from that sender.
pub proof fn lemma_end_to_end(
    sender: TradRadioView,
    receiver: TradRadioView,
    packets: Seq<Packet>,
    now: u64,
)
    requires
        sender.wf(),
        sender.state == RadioState::Disabled,
        receiver.wf(),
        receiver.state == RadioState::Rx || receiver.state == RadioState::Disabled,
        forall|k: int| 0 <= k < packets.len() ==> (#[trigger] packets[k]).wf(),
        receiver.last_seen[sender.tx_address as int] != spec_next_id(sender.tx_id),
    ensures
        ({
            let frames = sender.spec_send_all(packets, now).1;
            let arrivals = Seq::new(frames.len(), |k: int| (sender.tx_address, frames[k]));
            let (after, positions, handed) = receiver.spec_hear_all(arrivals, now);
            &&& positions == Seq::new(packets.len(), |k: int| k)
            &&& handed.len() == packets.len()
            &&& forall|k: int|
                0 <= k < handed.len() ==> (#[trigger] handed[k])@.payload == packets[k]@.payload
                    && handed[k]@.addr == sender.tx_address && handed[k]@.id == spec_nth_id(
                    sender.tx_id,
                    (k + 1) as nat,
                )
        }),
{
    let n = packets.len();
    let first = spec_next_id(sender.tx_id);
    lemma_send_all(sender, packets, now);
    let frames = sender.spec_send_all(packets, now).1;
    let arrivals = Seq::new(frames.len(), |k: int| (sender.tx_address, frames[k]));
    assert forall|k: int| 0 <= k < arrivals.len() implies (#[trigger] arrivals[k]).0
        < ADDRESS_SLOTS && arrivals[k].1.wf() && spec_is_data(arrivals[k].1) by {
        lemma_data_frame(packets[k], spec_nth_id(sender.tx_id, (k + 1) as nat));
    }
    lemma_hear_all_in_order(receiver, arrivals, now);
    assert(spec_headers(arrivals) =~= spec_run_of_sends(sender.tx_address, first, n)) by {
        assert forall|k: int| 0 <= k < n implies spec_headers(arrivals)[k] == spec_run_of_sends(
            sender.tx_address,
            first,
            n,
        )[k] by {
            lemma_data_frame(packets[k], spec_nth_id(sender.tx_id, (k + 1) as nat));
            assert(frames[k] == spec_data_frame(
                packets[k],
                spec_nth_id(sender.tx_id, (k + 1) as nat),
            ));
        }
    }
    lemma_run_of_sends_all_delivered(receiver.last_seen, sender.tx_address, first, n);
    let (after, positions, handed) = receiver.spec_hear_all(arrivals, now);
    assert forall|k: int| 0 <= k < handed.len() implies (#[trigger] handed[k])@.payload
        == packets[k]@.payload && handed[k]@.addr == sender.tx_address && handed[k]@.id
        == spec_nth_id(sender.tx_id, (k + 1) as nat) by {
        lemma_data_frame(packets[k], spec_nth_id(sender.tx_id, (k + 1) as nat));
    }
}

/// The link and the radio agree: a link at rest has a ready radio before
/// it, a busy link a radio that runs its operation or has just ended it,
/// and a link that waits for an ack may also have a radio that has stopped
/// listening.
pub open spec fn spec_in_step(link: TradRadioView, radio: RadioHardware) -> bool {
    match link.state {
        RadioState::Disabled => radio.ready(),
        RadioState::TxAck => radio.running() || radio.finished() || radio.ready(),
        _ => radio.running() || radio.finished(),
    }
}

/// What a list of four commands does to the radio, one after the other.
proof fn lemma_apply_four(radio: RadioHardware, a: Command, b: Command, c: Command, d: Command)
    ensures
        radio.spec_apply_all(seq![a]) == radio.spec_apply(a),
        radio.spec_apply_all(seq![a, b]) == radio.spec_apply(a).spec_apply(b),
        radio.spec_apply_all(seq![a, b, c]) == radio.spec_apply(a).spec_apply(b).spec_apply(c),
        radio.spec_apply_all(seq![a, b, c, d]) == radio.spec_apply(a).spec_apply(b).spec_apply(
            c,
        ).spec_apply(d),
        radio.spec_starts_safely(seq![a]) == (RadioHardware::spec_starts(a) ==> radio.ready()),
        radio.spec_starts_safely(seq![a, b]) == (radio.spec_starts_safely(seq![a]) && (
        RadioHardware::spec_starts(b) ==> radio.spec_apply(a).ready())),
        radio.spec_starts_safely(seq![a, b, c]) == (radio.spec_starts_safely(seq![a, b]) && (
        RadioHardware::spec_starts(c) ==> radio.spec_apply(a).spec_apply(b).ready())),
        radio.spec_starts_safely(seq![a, b, c, d]) == (radio.spec_starts_safely(seq![a, b, c])
            && (RadioHardware::spec_starts(d) ==> radio.spec_apply(a).spec_apply(b).spec_apply(
            c,
        ).ready())),
{
    let s0 = Seq::<Command>::empty();
    radio.lemma_apply_push(s0, a);
    radio.lemma_apply_push(s0.push(a), b);
    radio.lemma_apply_push(s0.push(a).push(b), c);
    radio.lemma_apply_push(s0.push(a).push(b).push(c), d);
    assert(s0.push(a).push(b) =~= seq![a, b]);
    assert(s0.push(a).push(b).push(c) =~= seq![a, b, c]);
    assert(s0.push(a).push(b).push(c).push(d) =~= seq![a, b, c, d]);
}

/// One operation at a time, on requests: a send or a receive filed with a
/// link at rest starts its operation on a ready radio, and afterwards link
/// and radio agree again.
pub proof fn lemma_requests_keep_in_step(
    link: TradRadioView,
    radio: RadioHardware,
    packet: Packet,
    now: u64,
)
    requires
        link.wf(),
        link.state == RadioState::Disabled,
        spec_in_step(link, radio),
    ensures
        radio.spec_starts_safely(link.spec_send_packet(packet, now).1),
        spec_in_step(
            link.spec_send_packet(packet, now).0,
            radio.spec_apply_all(link.spec_send_packet(packet, now).1),
        ),
        radio.spec_starts_safely(link.spec_receive_packet().1),
        spec_in_step(
            link.spec_receive_packet().0,
            radio.spec_apply_all(link.spec_receive_packet().1),
        ),
{
    let sent = link.spec_outgoing(packet);
    lemma_apply_four(
        radio,
        Command::LoadFrame(sent),
        Command::StartTx,
        Command::StartTx,
        Command::StartTx,
    );
    lemma_apply_four(
        radio,
        Command::PointAtReceiveBuffer,
        Command::StartRx,
        Command::StartRx,
        Command::StartRx,
    );
}

/// One operation at a time, in the radio interrupt: whatever the radio
/// reports, as long as the flag handed in is the radio's own, the link
/// starts the next operation only after it has taken note of the end of the
/// last, and afterwards link and radio agree again.
pub proof fn lemma_radio_interrupt_keeps_in_step(
    link: TradRadioView,
    radio: RadioHardware,
    events: RadioEvents,
    received: [u8; FRAME_SIZE],
    now: u64,
)
    requires
        link.wf(),
        spec_in_step(link, radio),
        events.disabled == radio.disabled_event,
    ensures
        radio.spec_starts_safely(link.spec_on_radio(events, received, now).1),
        spec_in_step(
            link.spec_on_radio(events, received, now).0,
            radio.spec_apply_all(link.spec_on_radio(events, received, now).1),
        ),
{
    let commands = link.spec_on_radio(events, received, now).1;
    if commands.len() == 1 {
        lemma_apply_four(radio, commands[0], commands[0], commands[0], commands[0]);
    } else if commands.len() == 2 {
        lemma_apply_four(radio, commands[0], commands[1], commands[1], commands[1]);
    } else if commands.len() == 3 {
        lemma_apply_four(radio, commands[0], commands[1], commands[2], commands[2]);
    } else if commands.len() == 4 {
        lemma_apply_four(radio, commands[0], commands[1], commands[2], commands[3]);
    }
}

/// One operation at a time, in the timer interrupt: an expired ack window
/// forces the radio to idle before the frame goes out again, so the
/// retransmission starts on a ready radio; at any other time the timer
/// interrupt leaves the radio alone.
pub proof fn lemma_timer_interrupt_keeps_in_step(
    link: TradRadioView,
    radio: RadioHardware,
    compare: bool,
    now: u64,
)
    requires
        link.wf(),
        spec_in_step(link, radio),
    ensures
        radio.spec_starts_safely(link.spec_on_timer(compare, now).1),
        spec_in_step(
            link.spec_on_timer(compare, now).0,
            radio.spec_apply_all(link.spec_on_timer(compare, now).1),
        ),
{
    let commands = link.spec_on_timer(compare, now).1;
    if commands.len() == 2 {
        lemma_apply_four(radio, commands[0], commands[1], commands[1], commands[1]);
    } else if commands.len() == 3 {
        lemma_apply_four(radio, commands[0], commands[1], commands[2], commands[2]);
    } else {
        let head = seq![commands[0], commands[1], commands[2], commands[3]];
        let tail = seq![commands[4], commands[5], commands[6], commands[7]];
        assert(commands =~= head + tail);
        lemma_apply_four(radio, commands[0], commands[1], commands[2], commands[3]);
        lemma_apply_four(
            radio.spec_apply_all(head),
            commands[4],
            commands[5],
            commands[6],
            commands[7],
        );
        radio.lemma_apply_concat(head, tail);
    }
}

/// One operation at a time, on the radio's side: the end of the running
/// operation keeps link and radio in step.
pub proof fn lemma_finish_keeps_in_step(link: TradRadioView, radio: RadioHardware)
    requires
        spec_in_step(link, radio),
        radio.running(),
    ensures
        spec_in_step(link, radio.spec_finish()),
{
}

} // verus!
