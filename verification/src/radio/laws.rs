//! What holds of the link across several steps: a payload comes out as it
//! went in, a lost ack costs a retransmission but no second delivery, frames
//! come out in the order in which they went in, a cancelled operation leaves
//! the radio ready for the next, and no operation is started before the
//! last has ended.

use vstd::prelude::*;

use super::addresses::ADDRESS_SLOTS;
use super::command::{Command, LogInfo, Outcome, RadioEvents};
use super::hardware::RadioHardware;
use super::packet::{Packet, BUFFER_SIZE, FRAME_SIZE};
use super::protocol::{
    lemma_ack_settles, lemma_data_frame, lemma_run_of_sends_all_delivered, spec_ack_frame,
    spec_admit, spec_admit_all, spec_bump, spec_data_frame, spec_elapsed, spec_is_data,
    spec_next_id, spec_nth_id, spec_run_of_sends, ACK_DELAY_MICROS, ACK_WINDOW_MICROS,
};
use super::transport::{
    spec_arm_rx, spec_arm_tx, spec_finish_rx, spec_teardown, Phase, RadioView,
};

verus! {

/// The flags of an operation that has ended, with a good checksum on what
/// was matched on `addr`.
pub open spec fn spec_heard(addr: u8) -> RadioEvents {
    RadioEvents { disabled: true, crc_ok: true, rx_match: addr }
}

/// Address and id of each of `arrivals`.
pub open spec fn spec_headers(arrivals: Seq<(u8, Packet)>) -> Seq<(u8, u8)> {
    Seq::new(arrivals.len(), |k: int| (arrivals[k].0, arrivals[k].1@.id))
}

impl RadioView {
    /// The link once it listens: an idle link starts to, a busy one stays
    /// as it is.
    pub open spec fn spec_listening(self) -> RadioView {
        if self.phase == Phase::Idle {
            self.spec_receive().0
        } else {
            self
        }
    }

    /// The listening link after `frame` has come in on `addr` and the
    /// answer to it has gone out, and what the link hands out.
    pub open spec fn spec_hear(self, addr: u8, frame: Packet, now: u64) -> (RadioView, Outcome) {
        let acking = self.spec_poll(spec_heard(addr), frame.spec_bytes(), now).0;
        let ended = acking.spec_poll(spec_heard(addr), frame.spec_bytes(), now);
        (ended.0, ended.2)
    }

    /// The link after `arrivals`, each an address and a frame, have come in
    /// one after the other while it listened, the positions in `arrivals`
    /// of the frames that it has handed out, and those frames as handed
    /// out.
    pub open spec fn spec_hear_all(self, arrivals: Seq<(u8, Packet)>, now: u64) -> (
        RadioView,
        Seq<int>,
        Seq<Packet>,
    )
        decreases arrivals.len(),
    {
        if arrivals.len() == 0 {
            (self, Seq::empty(), Seq::empty())
        } else {
            let (before, positions, handed) = self.spec_hear_all(arrivals.drop_last(), now);
            let (after, outcome) = before.spec_listening().spec_hear(
                arrivals.last().0,
                arrivals.last().1,
                now,
            );
            match outcome {
                Outcome::Received(frame) => (
                    after,
                    positions.push(arrivals.len() - 1),
                    handed.push(frame),
                ),
                _ => (after, positions, handed),
            }
        }
    }

    /// The sender after `packets` have been sent one after the other, each
    /// acknowledged at once, and the frames that went out.
    pub open spec fn spec_send_all(self, packets: Seq<Packet>, now: u64) -> (RadioView, Seq<Packet>)
        decreases packets.len(),
    {
        if packets.len() == 0 {
            (self, Seq::empty())
        } else {
            let (before, frames) = self.spec_send_all(packets.drop_last(), now);
            let sending = before.spec_send(packets.last(), now).0;
            (
                RadioView { phase: Phase::Idle, ..sending },
                frames.push(before.spec_outgoing(packets.last())),
            )
        }
    }
}

/// A listening link answers every data frame with the ack for its id and
/// address, and hands the frame out, bytes unchanged, exactly when its id
/// is not the one last handed out from that address.
pub proof fn lemma_hear(link: RadioView, addr: u8, frame: Packet, now: u64)
    requires
        link.wf(),
        link.phase == Phase::Receiving,
        addr < ADDRESS_SLOTS,
        frame.wf(),
        spec_is_data(frame),
    ensures
        ({
            let (acking, commands, pending) = link.spec_poll(
                spec_heard(addr),
                frame.spec_bytes(),
                now,
            );
            let (after, outcome) = link.spec_hear(addr, frame, now);
            let (table, novel) = spec_admit(link.last_seen, addr, frame@.id);
            &&& acking.phase == Phase::Acking
            &&& commands == spec_finish_rx(true) + seq![Command::Delay(ACK_DELAY_MICROS)]
                + spec_arm_tx(spec_ack_frame(frame@.id, addr))
            &&& pending == Outcome::Pending
            &&& after.wf()
            &&& after.last_seen == table
            &&& after.tx_id == link.tx_id
            &&& after.tx_address == link.tx_address
            &&& novel ==> after.phase == Phase::Idle && outcome is Received
            &&& outcome matches Outcome::Received(handed) ==> novel && handed.wire() == frame.wire()
                && handed@.addr == addr && handed@.id == frame@.id && handed@.payload
                == frame@.payload
            &&& !novel ==> after.phase == Phase::Receiving && outcome == Outcome::Pending
        }),
{
    Packet::lemma_bytes_round_trip(frame);
    Packet::lemma_from_bytes(addr, frame.spec_bytes());
}

/// Round trip: a payload that fits a frame, once copied into a packet and
/// sent, is handed out by the peer that hears it as the same bytes.
pub proof fn lemma_round_trip(
    sender: RadioView,
    receiver: RadioView,
    before: Packet,
    payload: Seq<u8>,
    packet: Packet,
    now: u64,
)
    requires
        sender.wf(),
        sender.phase == Phase::Idle,
        receiver.wf(),
        receiver.phase == Phase::Receiving,
        before.wf(),
        payload.len() <= BUFFER_SIZE,
        packet.wf(),
        packet.wire() == Packet::with_payload(before.wire(), payload),
        receiver.last_seen[sender.tx_address as int] != spec_next_id(sender.tx_id),
    ensures
        ({
            let sent = sender.spec_outgoing(packet);
            &&& sender.spec_send(packet, now).1[0] == Command::LoadFrame(sent)
            &&& sent@.payload == payload
            &&& receiver.spec_hear(sender.tx_address, sent, now).1 matches Outcome::Received(
                handed,
            ) && handed@.payload == payload && handed@.addr == sender.tx_address && handed@.id
                == spec_next_id(sender.tx_id)
        }),
{
    let sent = sender.spec_outgoing(packet);
    lemma_data_frame(packet, spec_next_id(sender.tx_id));
    lemma_hear(receiver, sender.tx_address, sent, now);
}

/// The ack that a receiver gives for a frame settles the send of that
/// frame: the sender that hears it with a good checksum is done and reports
/// its retransmissions and the time of the last attempt. An ack for another
/// id or another address settles nothing, and the sender listens on.
pub proof fn lemma_ack_settles_send(
    sender: RadioView,
    id: u8,
    addr: u8,
    rx_match: u8,
    now: u64,
)
    requires
        sender.wf(),
        sender.phase == Phase::AwaitingAck,
    ensures
        ({
            let ack = spec_ack_frame(id, addr);
            let (after, commands, outcome) = sender.spec_poll(
                spec_heard(rx_match),
                ack.spec_bytes(),
                now,
            );
            if id == sender.frame@.id && addr == sender.tx_address {
                &&& after == (RadioView { phase: Phase::Idle, ..sender })
                &&& commands == spec_finish_rx(true)
                &&& outcome == Outcome::Sent(
                    LogInfo {
                        retransmissions: sender.retransmissions,
                        time_elapsed: spec_elapsed(sender.start, now),
                    },
                )
            } else {
                &&& after == sender
                &&& commands == spec_finish_rx(true) + spec_arm_rx()
                &&& outcome == Outcome::Pending
            }
        }),
{
    lemma_ack_settles(id, addr, sender.frame@.id, sender.tx_address);
    let ack = spec_ack_frame(id, addr);
    Packet::lemma_bytes_round_trip(ack);
    Packet::lemma_from_bytes(rx_match, ack.spec_bytes());
}

/// Ack loss, the sender's side: when the window closes without the ack,
/// the very same frame, with the same id, goes out again, and one more
/// retransmission is counted.
pub proof fn lemma_timeout_retransmits_same_frame(sender: RadioView, now: u64)
    requires
        sender.wf(),
        sender.phase == Phase::AwaitingAck,
    ensures
        ({
            let (after, commands) = sender.spec_on_ack_timeout(now);
            &&& after.phase == Phase::Sending
            &&& after.frame == sender.frame
            &&& after.tx_id == sender.tx_id
            &&& after.retransmissions == spec_bump(sender.retransmissions)
            &&& after.start == now
            &&& commands == spec_teardown() + spec_arm_tx(sender.frame)
            &&& commands[3] == Command::LoadFrame(sender.frame)
        }),
{
}

/// Ack loss, the receiver's side: a frame that comes in again after it was
/// handed out is answered with the same ack every time and is never handed
/// out again.
pub proof fn lemma_ack_loss_idempotence(
    receiver: RadioView,
    addr: u8,
    frame: Packet,
    now: u64,
    later: u64,
)
    requires
        receiver.wf(),
        receiver.phase == Phase::Receiving,
        addr < ADDRESS_SLOTS,
        frame.wf(),
        spec_is_data(frame),
    ensures
        ({
            let first = receiver.spec_hear(addr, frame, now).0.spec_listening();
            let (acking, commands, _) = first.spec_poll(
                spec_heard(addr),
                frame.spec_bytes(),
                later,
            );
            let (second, outcome) = first.spec_hear(addr, frame, later);
            &&& first.wf()
            &&& first.phase == Phase::Receiving
            &&& first.last_seen[addr as int] == frame@.id
            &&& acking.phase == Phase::Acking
            &&& commands == spec_finish_rx(true) + seq![Command::Delay(ACK_DELAY_MICROS)]
                + spec_arm_tx(spec_ack_frame(frame@.id, addr))
            &&& outcome == Outcome::Pending
            &&& second.phase == Phase::Receiving
            &&& second.last_seen == first.last_seen
        }),
{
    lemma_hear(receiver, addr, frame, now);
    let first = receiver.spec_hear(addr, frame, now).0.spec_listening();
}

/// In-order delivery: of the data frames that come in, the link hands out
/// those that the rule of the last seen id admits. It hands them out in the
/// order in which they came in, each with the bytes that came in and the
/// address on which it was matched.
pub proof fn lemma_hear_all_in_order(link: RadioView, arrivals: Seq<(u8, Packet)>, now: u64)
    requires
        link.wf(),
        link.phase == Phase::Receiving || link.phase == Phase::Idle,
        forall|k: int|
            0 <= k < arrivals.len() ==> (#[trigger] arrivals[k]).0 < ADDRESS_SLOTS
                && arrivals[k].1.wf() && spec_is_data(arrivals[k].1),
    ensures
        ({
            let (after, positions, handed) = link.spec_hear_all(arrivals, now);
            &&& after.wf()
            &&& after.phase == Phase::Receiving || after.phase == Phase::Idle
            &&& after.tx_id == link.tx_id
            &&& after.tx_address == link.tx_address
            &&& (after.last_seen, positions) == spec_admit_all(
                link.last_seen,
                spec_headers(arrivals),
            )
            &&& forall|i: int|
                0 <= i < positions.len() ==> 0 <= #[trigger] positions[i] < arrivals.len()
            &&& forall|i: int, j: int|
                0 <= i < j < positions.len() ==> positions[i] < positions[j]
            &&& handed.len() == positions.len()
            &&& forall|i: int|
                0 <= i < handed.len() ==> (#[trigger] handed[i]).wire()
                    == arrivals[positions[i]].1.wire() && handed[i]@.addr
                    == arrivals[positions[i]].0 && handed[i]@.payload
                    == arrivals[positions[i]].1@.payload
        }),
    decreases arrivals.len(),
{
    let headers = spec_headers(arrivals);
    if arrivals.len() > 0 {
        let earlier = arrivals.drop_last();
        lemma_hear_all_in_order(link, earlier, now);
        assert(spec_headers(earlier) =~= headers.drop_last());
        let (before, earlier_positions, earlier_handed) = link.spec_hear_all(earlier, now);
        let last = arrivals.last();
        lemma_hear(before.spec_listening(), last.0, last.1, now);
    }
}

/// Sequence ids: the frames of sends made one after the other carry their
/// packets under ids that count up from the sender's and start over after
/// 255.
pub proof fn lemma_send_all(link: RadioView, packets: Seq<Packet>, now: u64)
    requires
        link.wf(),
        link.phase == Phase::Idle,
        forall|k: int| 0 <= k < packets.len() ==> (#[trigger] packets[k]).wf(),
    ensures
        ({
            let (after, frames) = link.spec_send_all(packets, now);
            &&& after.wf()
            &&& after.phase == Phase::Idle
            &&& after.tx_address == link.tx_address
            &&& after.last_seen == link.last_seen
            &&& after.tx_id == spec_nth_id(link.tx_id, packets.len())
            &&& frames.len() == packets.len()
            &&& forall|k: int|
                0 <= k < frames.len() ==> #[trigger] frames[k] == spec_data_frame(
                    packets[k],
                    spec_nth_id(link.tx_id, (k + 1) as nat),
                )
        }),
    decreases packets.len(),
{
    if packets.len() > 0 {
        let earlier = packets.drop_last();
        lemma_send_all(link, earlier, now);
        let (before, earlier_frames) = link.spec_send_all(earlier, now);
        lemma_data_frame(packets.last(), spec_next_id(before.tx_id));
    }
}

/// From end to end: however many packets a sender sends in a row, a peer
/// that hears each frame once hands out every one of them, in the order in
/// which they were sent, with the payload that went in, also where the ids
/// start over. All that is asked is that the peer has not last seen the
/// first id from that sender.
pub proof fn lemma_end_to_end(
    sender: RadioView,
    receiver: RadioView,
    packets: Seq<Packet>,
    now: u64,
)
    requires
        sender.wf(),
        sender.phase == Phase::Idle,
        receiver.wf(),
        receiver.phase == Phase::Receiving || receiver.phase == Phase::Idle,
        forall|k: int| 0 <= k < packets.len() ==> (#[trigger] packets[k]).wf(),
        receiver.last_seen[sender.tx_address as int] != spec_next_id(sender.tx_id),
    ensures
        ({
            let frames = sender.spec_send_all(packets, now).1;
            let arrivals = Seq::new(frames.len(), |k: int| (sender.tx_address, frames[k]));
            let (after, positions, handed) = receiver.spec_hear_all(arrivals, now);
            &&& positions == Seq::new(packets.len(), |k: int| k)
            &&& handed.len() == packets.len()
            &&& forall|k: int|
                0 <= k < handed.len() ==> (#[trigger] handed[k])@.payload == packets[k]@.payload
                    && handed[k]@.addr == sender.tx_address && handed[k]@.id == spec_nth_id(
                    sender.tx_id,
                    (k + 1) as nat,
                )
        }),
{
    let n = packets.len();
    let first = spec_next_id(sender.tx_id);
    lemma_send_all(sender, packets, now);
    let frames = sender.spec_send_all(packets, now).1;
    let arrivals = Seq::new(frames.len(), |k: int| (sender.tx_address, frames[k]));
    assert forall|k: int| 0 <= k < arrivals.len() implies (#[trigger] arrivals[k]).0
        < ADDRESS_SLOTS && arrivals[k].1.wf() && spec_is_data(arrivals[k].1) by {
        lemma_data_frame(packets[k], spec_nth_id(sender.tx_id, (k + 1) as nat));
    }
    lemma_hear_all_in_order(receiver, arrivals, now);
    assert(spec_headers(arrivals) =~= spec_run_of_sends(sender.tx_address, first, n)) by {
        assert forall|k: int| 0 <= k < n implies spec_headers(arrivals)[k] == spec_run_of_sends(
            sender.tx_address,
            first,
            n,
        )[k] by {
            lemma_data_frame(packets[k], spec_nth_id(sender.tx_id, (k + 1) as nat));
            assert(frames[k] == spec_data_frame(
                packets[k],
                spec_nth_id(sender.tx_id, (k + 1) as nat),
            ));
        }
    }
    lemma_run_of_sends_all_delivered(receiver.last_seen, sender.tx_address, first, n);
    let (after, positions, handed) = receiver.spec_hear_all(arrivals, now);
    assert forall|k: int| 0 <= k < handed.len() implies (#[trigger] handed[k])@.payload
        == packets[k]@.payload && handed[k]@.addr == sender.tx_address && handed[k]@.id
        == spec_nth_id(sender.tx_id, (k + 1) as nat) by {
        lemma_data_frame(packets[k], spec_nth_id(sender.tx_id, (k + 1) as nat));
    }
}

/// Cancellation safety: whatever the link was doing, giving it up leaves
/// the link idle, and the commands of the cancellation leave any radio
/// disabled with no completion left over, so that the next operation can be
/// started at once.
pub proof fn lemma_cancel_leaves_ready(link: RadioView, radio: RadioHardware)
    requires
        link.wf(),
    ensures
        ({
            let (after, commands) = link.spec_cancel();
            &&& after.wf()
            &&& after.phase == Phase::Idle
            &&& after == (RadioView { phase: Phase::Idle, ..link })
            &&& link.phase != Phase::Idle ==> commands == spec_teardown()
                && radio.spec_apply_all(commands).ready()
            &&& link.phase == Phase::Idle ==> commands == Seq::<Command>::empty()
            &&& after.spec_receive().0.phase == Phase::Receiving
            &&& after.spec_receive().1 == spec_arm_rx()
        }),
{
    lemma_teardown(radio);
}

/// The link and the radio agree: an idle link has a ready radio before it,
/// a busy link a radio that runs its operation or has just ended it.
pub open spec fn spec_in_step(link: RadioView, radio: RadioHardware) -> bool {
    if link.phase == Phase::Idle {
        radio.ready()
    } else {
        radio.running() || radio.finished()
    }
}

/// The commands that transmit a frame start the transmission on a ready
/// radio and on no other, and leave the radio running.
pub proof fn lemma_arm_tx(radio: RadioHardware, frame: Packet)
    ensures
        radio.spec_starts_safely(spec_arm_tx(frame)) == radio.ready(),
        radio.ready() ==> radio.spec_apply_all(spec_arm_tx(frame)).running(),
{
    let s0 = Seq::<Command>::empty();
    let s1 = s0.push(Command::LoadFrame(frame));
    let s2 = s1.push(Command::EnableShortcuts);
    let s3 = s2.push(Command::StartTx);
    let s4 = s3.push(Command::MaskInterrupts);
    let s5 = s4.push(Command::UnmaskDisabledInterrupt);
    radio.lemma_apply_push(s0, Command::LoadFrame(frame));
    radio.lemma_apply_push(s1, Command::EnableShortcuts);
    radio.lemma_apply_push(s2, Command::StartTx);
    radio.lemma_apply_push(s3, Command::MaskInterrupts);
    radio.lemma_apply_push(s4, Command::UnmaskDisabledInterrupt);
    assert(s5 =~= spec_arm_tx(frame));
}

/// The commands that listen start the listening on a ready radio and on no
/// other, and leave the radio running.
pub proof fn lemma_arm_rx(radio: RadioHardware)
    ensures
        radio.spec_starts_safely(spec_arm_rx()) == radio.ready(),
        radio.ready() ==> radio.spec_apply_all(spec_arm_rx()).running(),
{
    let s0 = Seq::<Command>::empty();
    let s1 = s0.push(Command::EnableShortcuts);
    let s2 = s1.push(Command::PointAtReceiveBuffer);
    let s3 = s2.push(Command::StartRx);
    let s4 = s3.push(Command::MaskInterrupts);
    let s5 = s4.push(Command::UnmaskDisabledInterrupt);
    radio.lemma_apply_push(s0, Command::EnableShortcuts);
    radio.lemma_apply_push(s1, Command::PointAtReceiveBuffer);
    radio.lemma_apply_push(s2, Command::StartRx);
    radio.lemma_apply_push(s3, Command::MaskInterrupts);
    radio.lemma_apply_push(s4, Command::UnmaskDisabledInterrupt);
    assert(s5 =~= spec_arm_rx());
}

/// The commands of a teardown start nothing and leave any radio ready.
pub proof fn lemma_teardown(radio: RadioHardware)
    ensures
        radio.spec_starts_safely(spec_teardown()),
        radio.spec_apply_all(spec_teardown()).ready(),
{
    let s0 = Seq::<Command>::empty();
    let s1 = s0.push(Command::Disable);
    let s2 = s1.push(Command::AwaitDisabled);
    let s3 = s2.push(Command::ClearDisabledEvent);
    radio.lemma_apply_push(s0, Command::Disable);
    radio.lemma_apply_push(s1, Command::AwaitDisabled);
    radio.lemma_apply_push(s2, Command::ClearDisabledEvent);
    assert(s3 =~= spec_teardown());
}

/// Taking note of a finished operation starts nothing, takes the flag down
/// and so leaves a radio that has finished ready.
pub proof fn lemma_finish_rx(radio: RadioHardware, crc_ok: bool)
    ensures
        radio.spec_starts_safely(spec_finish_rx(crc_ok)),
        radio.spec_apply_all(spec_finish_rx(crc_ok)) == (RadioHardware {
            disabled_event: false,
            ..radio
        }),
{
    let s0 = Seq::<Command>::empty();
    let s1 = s0.push(Command::ClearDisabledEvent);
    let s2 = s1.push(Command::ClearCrcOkEvent);
    radio.lemma_apply_push(s0, Command::ClearDisabledEvent);
    radio.lemma_apply_push(s1, Command::ClearCrcOkEvent);
    assert(s2 =~= spec_finish_rx(true));
}

/// One operation at a time, on requests: a send or a receive begun on an
/// idle link starts its operation on a ready radio, and a cancellation
/// starts nothing; afterwards link and radio agree again.
pub proof fn lemma_requests_keep_in_step(
    link: RadioView,
    radio: RadioHardware,
    packet: Packet,
    now: u64,
)
    requires
        link.wf(),
        spec_in_step(link, radio),
    ensures
        link.phase == Phase::Idle ==> radio.spec_starts_safely(link.spec_send(packet, now).1)
            && spec_in_step(
            link.spec_send(packet, now).0,
            radio.spec_apply_all(link.spec_send(packet, now).1),
        ),
        link.phase == Phase::Idle ==> radio.spec_starts_safely(link.spec_receive().1)
            && spec_in_step(link.spec_receive().0, radio.spec_apply_all(link.spec_receive().1)),
        radio.spec_starts_safely(link.spec_cancel().1),
        spec_in_step(link.spec_cancel().0, radio.spec_apply_all(link.spec_cancel().1)),
{
    lemma_arm_tx(radio, link.spec_outgoing(packet));
    lemma_arm_rx(radio);
    lemma_teardown(radio);
}

/// One operation at a time, when the ack window closes: the listening is
/// torn down before the frame goes out again, so the retransmission starts
/// on a ready radio.
pub proof fn lemma_timeout_keeps_in_step(link: RadioView, radio: RadioHardware, now: u64)
    requires
        link.wf(),
        spec_in_step(link, radio),
    ensures
        radio.spec_starts_safely(link.spec_on_ack_timeout(now).1),
        spec_in_step(
            link.spec_on_ack_timeout(now).0,
            radio.spec_apply_all(link.spec_on_ack_timeout(now).1),
        ),
{
    if link.phase == Phase::AwaitingAck {
        lemma_teardown(radio);
        radio.lemma_apply_concat(spec_teardown(), spec_arm_tx(link.frame));
        lemma_arm_tx(radio.spec_apply_all(spec_teardown()), link.frame);
    }
}

/// One operation at a time, on wake-ups: whatever the radio reports, as
/// long as the flag handed in is the radio's own, the link starts the next
/// operation only after it has taken note of the end of the last, and
/// afterwards link and radio agree again.
pub proof fn lemma_poll_keeps_in_step(
    link: RadioView,
    radio: RadioHardware,
    events: RadioEvents,
    received: [u8; FRAME_SIZE],
    now: u64,
)
    requires
        link.wf(),
        spec_in_step(link, radio),
        events.disabled == radio.disabled_event,
    ensures
        radio.spec_starts_safely(link.spec_poll(events, received, now).1),
        spec_in_step(
            link.spec_poll(events, received, now).0,
            radio.spec_apply_all(link.spec_poll(events, received, now).1),
        ),
{
    let cleared = RadioHardware { disabled_event: false, ..radio };
    if link.phase == Phase::Idle {
        // nothing is asked of the radio
    } else if !events.disabled {
        radio.lemma_apply_one(Command::UnmaskDisabledInterrupt);
    } else {
        lemma_finish_rx(radio, true);
        lemma_arm_rx(cleared);
        radio.lemma_apply_one(Command::ClearDisabledEvent);
        match link.phase {
            Phase::Idle => {},
            Phase::Sending => {
                let head = seq![Command::ClearDisabledEvent];
                let window = seq![Command::OpenAckWindow(ACK_WINDOW_MICROS)];
                assert(seq![
                    Command::ClearDisabledEvent,
                    Command::OpenAckWindow(ACK_WINDOW_MICROS),
                ] =~= head + window);
                cleared.lemma_apply_one(Command::OpenAckWindow(ACK_WINDOW_MICROS));
                radio.lemma_apply_concat(head, window);
                radio.lemma_apply_concat(head + window, spec_arm_rx());
            },
            Phase::AwaitingAck => {
                if !link.spec_settled_by(events, received) {
                    radio.lemma_apply_concat(spec_finish_rx(events.crc_ok), spec_arm_rx());
                }
            },
            Phase::Receiving => {
                if RadioView::spec_takes(events, received) {
                    let data = Packet::spec_from_bytes(events.rx_match, received).unwrap();
                    let ack = spec_ack_frame(data@.id, events.rx_match);
                    let pause = seq![Command::Delay(ACK_DELAY_MICROS)];
                    cleared.lemma_apply_one(Command::Delay(ACK_DELAY_MICROS));
                    lemma_arm_tx(cleared, ack);
                    radio.lemma_apply_concat(spec_finish_rx(true), pause);
                    radio.lemma_apply_concat(spec_finish_rx(true) + pause, spec_arm_tx(ack));
                } else {
                    radio.lemma_apply_concat(spec_finish_rx(events.crc_ok), spec_arm_rx());
                }
            },
            Phase::Acking => {
                if !spec_admit(link.last_seen, link.frame@.addr, link.frame@.id).1 {
                    radio.lemma_apply_concat(seq![Command::ClearDisabledEvent], spec_arm_rx());
                }
            },
        }
    }
}

/// One operation at a time, on the radio's side: the end of the running
/// operation keeps link and radio in step.
pub proof fn lemma_finish_keeps_in_step(link: RadioView, radio: RadioHardware)
    requires
        spec_in_step(link, radio),
        radio.running(),
    ensures
        spec_in_step(link, radio.spec_finish()),
{
}

} // verus!
