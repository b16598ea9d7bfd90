use bruh78::radio::protocol::ack_frame;
use bruh78::radio::{
    Command, LogInfo, Outcome, Packet, PacketType, RadioConfig, RadioEvents, TimerConfig,
};
use bruh78::trad_radio::{
    Addresses, RadioState, RadioTimerInterrupt, TradInterruptHandler, TradRadio,
};

const QUIET: [u8; 35] = [0; 35];

fn ended() -> RadioEvents {
    RadioEvents { disabled: true, crc_ok: false, rx_match: 0 }
}

fn caught(addr: u8) -> RadioEvents {
    RadioEvents { disabled: true, crc_ok: true, rx_match: addr }
}

fn station(tx: u8, rx: u32) -> TradRadio {
    let mut radio = TradRadio::new(Addresses::default());
    radio.set_tx_addresses(tx);
    radio.set_rx_addresses(rx);
    radio
}

fn with_payload(payload: &[u8]) -> Packet {
    let mut packet = Packet::default();
    packet.copy_from_slice(payload).unwrap();
    packet
}

fn stamped(payload: &[u8], id: u8) -> Packet {
    let mut packet = with_payload(payload);
    packet.set_id(id);
    packet.set_type(PacketType::Data);
    packet
}

fn loaded(commands: &[Command]) -> Packet {
    for command in commands {
        if let Command::LoadFrame(frame) = command {
            return *frame;
        }
    }
    panic!("nothing goes on the air");
}

/// Lets a listening station catch `frame` on `addr` and finish its answer.
fn catch(receiver: &mut TradRadio, addr: u8, frame: &Packet, now: u64) -> (Packet, Outcome) {
    let step = TradInterruptHandler::on_interrupt(receiver, caught(addr), &frame.as_bytes(), now);
    assert_eq!(step.outcome, Outcome::Pending);
    let ack = loaded(&step.commands);
    let step = TradInterruptHandler::on_interrupt(receiver, ended(), &QUIET, now);
    (ack, step.outcome)
}

/// One send from request to ack with nothing lost.
fn relay(
    sender: &mut TradRadio,
    receiver: &mut TradRadio,
    addr: u8,
    payload: &[u8],
    now: u64,
) -> (Packet, Outcome, Outcome) {
    let commands = sender.send_packet(with_payload(payload), now);
    let frame = loaded(&commands);
    TradInterruptHandler::on_interrupt(sender, ended(), &QUIET, now);
    if receiver.is_idle() {
        receiver.receive_packet();
    }
    let (ack, handed) = catch(receiver, addr, &frame, now);
    let step = TradInterruptHandler::on_interrupt(sender, caught(0), &ack.as_bytes(), now + 7);
    (frame, handed, step.outcome)
}

#[test]
fn trad_new_link_is_at_rest_and_configured() {
    let addresses = Addresses::default();
    let radio = TradRadio::new(addresses);
    assert!(radio.is_idle());
    assert_eq!(radio.config(), RadioConfig::new(&addresses));
    assert_eq!(radio.timer_config(), TimerConfig { bit_width: 32, prescaler: 4, compare: 300 });
    assert_eq!(
        radio.start_up(),
        vec![Command::EnableShortcuts, Command::UnmaskDisabledInterrupt]
    );
}

#[test]
fn trad_send_request_transmits_under_the_next_id() {
    let mut sender = station(1, 1);
    let commands = sender.send_packet(with_payload(&[0, 1, 2]), 10);
    assert_eq!(
        commands,
        vec![Command::LoadFrame(stamped(&[0, 1, 2], 1)), Command::StartTx]
    );
    assert!(!sender.is_idle());
}

#[test]
fn trad_receive_request_listens() {
    let mut receiver = station(0, 6);
    assert_eq!(
        receiver.receive_packet(),
        vec![Command::PointAtReceiveBuffer, Command::StartRx]
    );
    assert!(!receiver.is_idle());
}

#[test]
fn trad_interrupt_without_a_finished_operation_does_nothing() {
    let mut sender = station(1, 1);
    let step = TradInterruptHandler::on_interrupt(&mut sender, ended(), &QUIET, 0);
    assert!(step.commands.is_empty());
    assert_eq!(step.outcome, Outcome::Pending);
    assert!(sender.is_idle());

    sender.send_packet(with_payload(&[1]), 0);
    let busy = RadioEvents { disabled: false, crc_ok: true, rx_match: 0 };
    let step = TradInterruptHandler::on_interrupt(&mut sender, busy, &QUIET, 0);
    assert!(step.commands.is_empty());
    assert_eq!(step.outcome, Outcome::Pending);
}

#[test]
fn trad_transmission_starts_the_countdown_and_listens() {
    let mut sender = station(1, 1);
    sender.send_packet(with_payload(&[1]), 0);
    let step = TradInterruptHandler::on_interrupt(&mut sender, ended(), &QUIET, 1);
    assert_eq!(
        step.commands,
        vec![
            Command::ClearDisabledEvent,
            Command::PointAtReceiveBuffer,
            Command::StartTimer,
            Command::StartRx,
        ]
    );
    assert_eq!(step.outcome, Outcome::Pending);
}

#[test]
fn trad_matching_ack_ends_the_send() {
    let mut sender = station(1, 1);
    sender.send_packet(with_payload(&[1]), 500);
    TradInterruptHandler::on_interrupt(&mut sender, ended(), &QUIET, 510);
    let ack = ack_frame(1, 1).as_bytes();
    let step = TradInterruptHandler::on_interrupt(&mut sender, caught(0), &ack, 620);
    assert_eq!(
        step.commands,
        vec![Command::ClearDisabledEvent, Command::ClearCrcOkEvent, Command::StopTimer]
    );
    assert_eq!(
        step.outcome,
        Outcome::Sent(LogInfo { retransmissions: 0, time_elapsed: 120 })
    );
    assert!(sender.is_idle());
    // the next send takes the next id
    let commands = sender.send_packet(with_payload(&[2]), 700);
    assert_eq!(loaded(&commands).id(), 2);
}

#[test]
fn trad_other_frame_in_the_ack_window_waits_for_the_countdown() {
    let mut sender = station(1, 1);
    sender.send_packet(with_payload(&[1]), 0);
    TradInterruptHandler::on_interrupt(&mut sender, ended(), &QUIET, 1);
    let ack = ack_frame(9, 1).as_bytes();
    let step = TradInterruptHandler::on_interrupt(&mut sender, caught(0), &ack, 2);
    assert_eq!(step.commands, vec![Command::ClearDisabledEvent, Command::ClearCrcOkEvent]);
    assert_eq!(step.outcome, Outcome::Pending);
    let commands = RadioTimerInterrupt::on_interrupt(&mut sender, true, 300);
    assert_eq!(loaded(&commands), stamped(&[1], 1));
}

#[test]
fn trad_bad_checksum_in_the_ack_window_retransmits_at_once() {
    let mut sender = station(1, 1);
    sender.send_packet(with_payload(&[1]), 0);
    TradInterruptHandler::on_interrupt(&mut sender, ended(), &QUIET, 1);
    let step =
        TradInterruptHandler::on_interrupt(&mut sender, ended(), &ack_frame(1, 1).as_bytes(), 50);
    assert_eq!(
        step.commands,
        vec![
            Command::ClearDisabledEvent,
            Command::LoadFrame(stamped(&[1], 1)),
            Command::StopTimer,
            Command::StartTx,
        ]
    );
    assert_eq!(step.outcome, Outcome::Pending);
    TradInterruptHandler::on_interrupt(&mut sender, ended(), &QUIET, 60);
    let ack = ack_frame(1, 1).as_bytes();
    let step = TradInterruptHandler::on_interrupt(&mut sender, caught(0), &ack, 75);
    assert_eq!(
        step.outcome,
        Outcome::Sent(LogInfo { retransmissions: 1, time_elapsed: 25 })
    );
}

#[test]
fn trad_expired_countdown_forces_idle_and_retransmits() {
    let mut sender = station(2, 1);
    sender.send_packet(with_payload(&[6]), 0);
    TradInterruptHandler::on_interrupt(&mut sender, ended(), &QUIET, 5);
    let commands = RadioTimerInterrupt::on_interrupt(&mut sender, true, 305);
    assert_eq!(
        commands,
        vec![
            Command::StopTimer,
            Command::ClearTimer,
            Command::ClearCompareEvent,
            Command::Disable,
            Command::AwaitDisabled,
            Command::ClearDisabledEvent,
            Command::LoadFrame(stamped(&[6], 1)),
            Command::StartTx,
        ]
    );
    TradInterruptHandler::on_interrupt(&mut sender, ended(), &QUIET, 310);
    let commands = RadioTimerInterrupt::on_interrupt(&mut sender, true, 610);
    assert_eq!(loaded(&commands).id(), 1);
    TradInterruptHandler::on_interrupt(&mut sender, ended(), &QUIET, 615);
    let ack = ack_frame(1, 2).as_bytes();
    let step = TradInterruptHandler::on_interrupt(&mut sender, caught(0), &ack, 650);
    assert_eq!(
        step.outcome,
        Outcome::Sent(LogInfo { retransmissions: 2, time_elapsed: 40 })
    );
}

#[test]
fn trad_timer_interrupt_outside_the_ack_wait_rests_the_timer() {
    let rest = vec![Command::StopTimer, Command::ClearTimer];
    let spurious = vec![Command::ClearCompareEvent, Command::StopTimer, Command::ClearTimer];

    let mut idle = station(1, 1);
    assert_eq!(RadioTimerInterrupt::on_interrupt(&mut idle, false, 0), rest);
    assert_eq!(RadioTimerInterrupt::on_interrupt(&mut idle, true, 0), spurious);
    assert!(idle.is_idle());

    let mut transmitting = station(1, 1);
    transmitting.send_packet(with_payload(&[1]), 0);
    assert_eq!(RadioTimerInterrupt::on_interrupt(&mut transmitting, true, 0), spurious);
    let step = TradInterruptHandler::on_interrupt(&mut transmitting, ended(), &QUIET, 1);
    assert_eq!(step.commands[2], Command::StartTimer);
    assert_eq!(RadioTimerInterrupt::on_interrupt(&mut transmitting, false, 2), rest);

    let mut listening = station(0, 6);
    listening.receive_packet();
    assert_eq!(RadioTimerInterrupt::on_interrupt(&mut listening, true, 0), spurious);
    assert_eq!(RadioTimerInterrupt::on_interrupt(&mut listening, false, 0), rest);
    let frame = stamped(&[1], 1);
    let step =
        TradInterruptHandler::on_interrupt(&mut listening, caught(1), &frame.as_bytes(), 1);
    assert_eq!(loaded(&step.commands), ack_frame(1, 1));
    assert_eq!(RadioTimerInterrupt::on_interrupt(&mut listening, true, 2), spurious);
    let step = TradInterruptHandler::on_interrupt(&mut listening, ended(), &QUIET, 3);
    assert!(matches!(step.outcome, Outcome::Received(_)));
}

#[test]
fn trad_receive_acks_and_hands_out() {
    let mut receiver = station(0, 6);
    receiver.receive_packet();
    let frame = stamped(&[1, 2, 3], 9);
    let step = TradInterruptHandler::on_interrupt(&mut receiver, caught(2), &frame.as_bytes(), 0);
    assert_eq!(
        step.commands,
        vec![
            Command::ClearDisabledEvent,
            Command::ClearCrcOkEvent,
            Command::LoadFrame(ack_frame(9, 2)),
            Command::StartTx,
        ]
    );
    let step = TradInterruptHandler::on_interrupt(&mut receiver, ended(), &QUIET, 1);
    assert_eq!(step.commands, vec![Command::ClearDisabledEvent]);
    match step.outcome {
        Outcome::Received(handed) => {
            assert_eq!(handed.payload(), &[1u8, 2, 3][..]);
            assert_eq!(handed.addr(), 2);
            assert_eq!(handed.id(), 9);
        }
        other => panic!("nothing handed out: {:?}", other),
    }
    assert!(receiver.is_idle());
}

#[test]
fn trad_receiver_listens_on_after_what_is_no_good_data_frame() {
    let data = stamped(&[1], 1);
    let mut unknown = data.as_bytes();
    unknown[2] = 2;
    let mut malformed = data.as_bytes();
    malformed[0] = 0;
    let bad: Vec<(RadioEvents, [u8; 35])> = vec![
        (ended(), data.as_bytes()),
        (caught(1), ack_frame(1, 1).as_bytes()),
        (caught(1), unknown),
        (caught(1), malformed),
        (caught(8), data.as_bytes()),
    ];
    for (events, bytes) in bad {
        let mut receiver = station(0, 6);
        receiver.receive_packet();
        let step = TradInterruptHandler::on_interrupt(&mut receiver, events, &bytes, 0);
        assert_eq!(step.outcome, Outcome::Pending);
        let mut expected = vec![Command::ClearDisabledEvent];
        if events.crc_ok {
            expected.push(Command::ClearCrcOkEvent);
        }
        expected.push(Command::StartRx);
        assert_eq!(step.commands, expected);
        let (ack, handed) = catch(&mut receiver, 1, &data, 1);
        assert_eq!(ack, ack_frame(1, 1));
        assert!(matches!(handed, Outcome::Received(_)));
    }
}

#[test]
fn trad_lost_ack_scenario() {
    let mut sender = station(1, 1);
    let mut receiver = station(0, 6);
    for k in 1u8..=4 {
        let (frame, handed, _) = relay(&mut sender, &mut receiver, 1, &[k], 0);
        assert_eq!(frame.id(), k);
        assert!(matches!(handed, Outcome::Received(_)));
    }
    let commands = sender.send_packet(with_payload(&[1, 2, 3]), 100);
    let frame = loaded(&commands);
    assert_eq!(frame.id(), 5);
    TradInterruptHandler::on_interrupt(&mut sender, ended(), &QUIET, 110);

    receiver.receive_packet();
    let (ack, handed) = catch(&mut receiver, 1, &frame, 120);
    assert_eq!(ack, ack_frame(5, 1));
    match handed {
        Outcome::Received(packet) => assert_eq!(packet.payload(), &[1u8, 2, 3][..]),
        other => panic!("not handed out: {:?}", other),
    }

    let commands = RadioTimerInterrupt::on_interrupt(&mut sender, true, 410);
    let again = loaded(&commands);
    assert_eq!(again, frame);
    TradInterruptHandler::on_interrupt(&mut sender, ended(), &QUIET, 420);

    receiver.receive_packet();
    let step = TradInterruptHandler::on_interrupt(&mut receiver, caught(1), &again.as_bytes(), 430);
    assert_eq!(loaded(&step.commands), ack_frame(5, 1));
    let step = TradInterruptHandler::on_interrupt(&mut receiver, ended(), &QUIET, 440);
    assert_eq!(step.outcome, Outcome::Pending);
    assert_eq!(
        step.commands,
        vec![Command::ClearDisabledEvent, Command::PointAtReceiveBuffer, Command::StartRx]
    );
    assert!(!receiver.is_idle());

    let ack = ack_frame(5, 1).as_bytes();
    let step = TradInterruptHandler::on_interrupt(&mut sender, caught(0), &ack, 450);
    assert_eq!(
        step.outcome,
        Outcome::Sent(LogInfo { retransmissions: 1, time_elapsed: 40 })
    );
}

#[test]
fn trad_three_hundred_sends_wrap_the_ids() {
    let mut sender = station(1, 1);
    let mut receiver = station(0, 6);
    let mut ids = Vec::new();
    let mut delivered = 0u32;
    for k in 0u32..300 {
        let (frame, handed, report) = relay(&mut sender, &mut receiver, 1, &[k as u8], 0);
        ids.push(frame.id());
        if let Outcome::Received(packet) = handed {
            assert_eq!(packet.payload(), &[k as u8][..]);
            delivered += 1;
        }
        assert_eq!(report, Outcome::Sent(LogInfo { retransmissions: 0, time_elapsed: 7 }));
    }
    let expected: Vec<u8> = (1u32..=300).map(|k| (k % 256) as u8).collect();
    assert_eq!(ids, expected);
    assert_eq!(delivered, 300);
}

#[test]
fn trad_round_trip_of_every_payload_length() {
    let mut sender = station(2, 1);
    let mut receiver = station(0, 6);
    for len in 0usize..=32 {
        let payload: Vec<u8> = (0..len).map(|i| (i * 3 + len) as u8).collect();
        let (_, handed, _) = relay(&mut sender, &mut receiver, 2, &payload, 0);
        match handed {
            Outcome::Received(packet) => assert_eq!(packet.payload(), &payload[..]),
            other => panic!("not handed out: {:?}", other),
        }
    }
}

#[test]
fn trad_states_differ() {
    assert_ne!(RadioState::Disabled, RadioState::Tx);
    assert_ne!(RadioState::TxAck, RadioState::Rx);
    assert_ne!(RadioState::Rx, RadioState::RxAck);
}
