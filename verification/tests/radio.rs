use bruh78::radio::{
    Addresses, Command, InterruptHandler, LogInfo, Outcome, Packet, PacketType, Phase, Radio,
    RadioConfig, RadioEvents,
};
use bruh78::radio::protocol::ack_frame;

const IDLE_BUFFER: [u8; 35] = [0; 35];

fn done() -> RadioEvents {
    RadioEvents { disabled: true, crc_ok: false, rx_match: 0 }
}

fn heard(addr: u8) -> RadioEvents {
    RadioEvents { disabled: true, crc_ok: true, rx_match: addr }
}

fn arm_tx(frame: Packet) -> Vec<Command> {
    vec![
        Command::LoadFrame(frame),
        Command::EnableShortcuts,
        Command::StartTx,
        Command::MaskInterrupts,
        Command::UnmaskDisabledInterrupt,
    ]
}

fn arm_rx() -> Vec<Command> {
    vec![
        Command::EnableShortcuts,
        Command::PointAtReceiveBuffer,
        Command::StartRx,
        Command::MaskInterrupts,
        Command::UnmaskDisabledInterrupt,
    ]
}

fn teardown() -> Vec<Command> {
    vec![Command::Disable, Command::AwaitDisabled, Command::ClearDisabledEvent]
}

fn node(tx: u8, rx: u32) -> Radio {
    let mut radio = Radio::new(Addresses::default());
    radio.set_tx_addresses(tx);
    radio.set_rx_addresses(rx);
    radio
}

fn payload_frame(payload: &[u8]) -> Packet {
    let mut packet = Packet::default();
    packet.copy_from_slice(payload).unwrap();
    packet
}

/// The frame that a command list puts on the air.
fn on_air(commands: &[Command]) -> Packet {
    for command in commands {
        if let Command::LoadFrame(frame) = command {
            return *frame;
        }
    }
    panic!("nothing goes on the air");
}

/// Lets a listening receiver hear `frame` on `addr` and finish its answer.
/// Gives the ack that went out and what the receiver handed out.
fn hear(receiver: &mut Radio, addr: u8, frame: &Packet, now: u64) -> (Packet, Outcome) {
    let step = receiver.poll(heard(addr), &frame.as_bytes(), now);
    assert_eq!(step.outcome, Outcome::Pending);
    let ack = on_air(&step.commands);
    let step = receiver.poll(done(), &frame.as_bytes(), now);
    (ack, step.outcome)
}

/// One send from start to ack with nothing lost. Gives the frame that went
/// out, what the receiver handed out and what the sender reported.
fn exchange(
    sender: &mut Radio,
    receiver: &mut Radio,
    payload: &[u8],
    now: u64,
) -> (Packet, Outcome, Outcome) {
    let addr = sender.tx_addresses();
    let mut packet = payload_frame(payload);
    let commands = sender.send(&mut packet, now);
    let frame = on_air(&commands);
    assert_eq!(frame, packet);
    assert_eq!(sender.poll(done(), &IDLE_BUFFER, now).outcome, Outcome::Pending);
    if receiver.is_idle() {
        receiver.receive();
    }
    let (ack, handed) = hear(receiver, addr, &frame, now);
    let step = sender.poll(heard(0), &ack.as_bytes(), now + 3);
    (frame, handed, step.outcome)
}

#[test]
fn new_link_is_idle_and_configured() {
    let addresses = Addresses::default();
    let radio = Radio::new(addresses);
    assert!(radio.is_idle());
    assert_eq!(radio.tx_addresses(), 0);
    assert_eq!(radio.rx_addresses(), 0);
    assert_eq!(radio.config(), RadioConfig::new(&addresses));
}

#[test]
fn address_selectors_keep_the_bits_that_the_radio_has() {
    let mut radio = Radio::new(Addresses::default());
    radio.set_tx_addresses(2);
    assert_eq!(radio.tx_addresses(), 2);
    radio.set_tx_addresses(7);
    assert_eq!(radio.tx_addresses(), 7);
    radio.set_tx_addresses(9);
    assert_eq!(radio.tx_addresses(), 1);
    radio.set_rx_addresses(0b110);
    assert_eq!(radio.rx_addresses(), 0b110);
    radio.set_rx_addresses(0x1_02);
    assert_eq!(radio.rx_addresses(), 2);
}

#[test]
fn interrupt_masks_and_wakes() {
    assert_eq!(
        InterruptHandler::on_interrupt(),
        vec![Command::MaskInterrupts, Command::Wake]
    );
}

#[test]
fn send_stamps_the_next_id_and_transmits() {
    let mut sender = node(1, 1);
    let mut packet = payload_frame(&[1, 2, 3]);
    let commands = sender.send(&mut packet, 100);
    assert_eq!(packet.id(), 1);
    assert_eq!(packet.packet_type(), Ok(PacketType::Data));
    assert_eq!(packet.payload(), &[1u8, 2, 3][..]);
    assert_eq!(commands, arm_tx(packet));
    assert!(!sender.is_idle());
}

#[test]
fn poll_before_completion_only_unmasks() {
    let mut sender = node(1, 1);
    let mut packet = payload_frame(&[1]);
    sender.send(&mut packet, 0);
    let busy = RadioEvents { disabled: false, crc_ok: true, rx_match: 0 };
    let step = sender.poll(busy, &IDLE_BUFFER, 1);
    assert_eq!(step.commands, vec![Command::UnmaskDisabledInterrupt]);
    assert_eq!(step.outcome, Outcome::Pending);

    let mut idle = node(1, 1);
    let step = idle.poll(done(), &IDLE_BUFFER, 1);
    assert!(step.commands.is_empty());
    assert_eq!(step.outcome, Outcome::Pending);
    assert!(idle.is_idle());
}

#[test]
fn transmission_opens_the_ack_window_and_listens() {
    let mut sender = node(1, 1);
    let mut packet = payload_frame(&[1]);
    sender.send(&mut packet, 0);
    let step = sender.poll(done(), &IDLE_BUFFER, 5);
    let mut expected = vec![Command::ClearDisabledEvent, Command::OpenAckWindow(1000)];
    expected.extend(arm_rx());
    assert_eq!(step.commands, expected);
    assert_eq!(step.outcome, Outcome::Pending);
}

#[test]
fn matching_ack_ends_the_send() {
    let mut sender = node(1, 1);
    let mut packet = payload_frame(&[1]);
    sender.send(&mut packet, 1000);
    sender.poll(done(), &IDLE_BUFFER, 1010);
    let ack = ack_frame(1, 1);
    let step = sender.poll(heard(0), &ack.as_bytes(), 1234);
    assert_eq!(step.commands, vec![Command::ClearDisabledEvent, Command::ClearCrcOkEvent]);
    assert_eq!(
        step.outcome,
        Outcome::Sent(LogInfo { retransmissions: 0, time_elapsed: 234 })
    );
    assert!(sender.is_idle());
}

#[test]
fn clock_that_ran_backwards_reports_no_time() {
    let mut sender = node(1, 1);
    let mut packet = payload_frame(&[1]);
    sender.send(&mut packet, 1000);
    sender.poll(done(), &IDLE_BUFFER, 1010);
    let step = sender.poll(heard(0), &ack_frame(1, 1).as_bytes(), 900);
    assert_eq!(
        step.outcome,
        Outcome::Sent(LogInfo { retransmissions: 0, time_elapsed: 0 })
    );
}

#[test]
fn what_is_no_matching_ack_keeps_the_sender_listening() {
    let mut data = payload_frame(&[1]);
    data.set_id(1);
    data.set_type(PacketType::Data);
    let mut unknown = ack_frame(1, 1).as_bytes();
    unknown[2] = 9;
    let mut malformed = ack_frame(1, 1).as_bytes();
    malformed[0] = 1;
    let wrong: Vec<(RadioEvents, [u8; 35])> = vec![
        (heard(0), ack_frame(2, 1).as_bytes()),
        (heard(0), ack_frame(1, 2).as_bytes()),
        (heard(0), data.as_bytes()),
        (heard(0), unknown),
        (heard(0), malformed),
        (done(), ack_frame(1, 1).as_bytes()),
    ];
    for (events, bytes) in wrong {
        let mut sender = node(1, 1);
        let mut packet = payload_frame(&[1]);
        sender.send(&mut packet, 0);
        sender.poll(done(), &IDLE_BUFFER, 1);
        let step = sender.poll(events, &bytes, 2);
        assert_eq!(step.outcome, Outcome::Pending);
        let mut expected = vec![Command::ClearDisabledEvent];
        if events.crc_ok {
            expected.push(Command::ClearCrcOkEvent);
        }
        expected.extend(arm_rx());
        assert_eq!(step.commands, expected);
        assert!(!sender.is_idle());
        // the right ack still settles the send afterwards
        let step = sender.poll(heard(0), &ack_frame(1, 1).as_bytes(), 3);
        assert_eq!(
            step.outcome,
            Outcome::Sent(LogInfo { retransmissions: 0, time_elapsed: 3 })
        );
    }
}

#[test]
fn closed_window_retransmits_the_same_frame() {
    let mut sender = node(2, 1);
    let mut packet = payload_frame(&[4, 5]);
    sender.send(&mut packet, 0);
    sender.poll(done(), &IDLE_BUFFER, 10);
    for round in 1u32..=3 {
        let commands = sender.on_ack_timeout(1000 * round as u64);
        let mut expected = teardown();
        expected.extend(arm_tx(packet));
        assert_eq!(commands, expected);
        assert_eq!(on_air(&commands).id(), 1);
        sender.poll(done(), &IDLE_BUFFER, 1000 * round as u64 + 10);
    }
    let step = sender.poll(heard(0), &ack_frame(1, 2).as_bytes(), 3100);
    assert_eq!(
        step.outcome,
        Outcome::Sent(LogInfo { retransmissions: 3, time_elapsed: 100 })
    );
}

#[test]
fn closed_window_means_nothing_outside_the_ack_wait() {
    let mut radio = node(1, 1);
    assert!(radio.on_ack_timeout(5).is_empty());
    assert!(radio.is_idle());
    let mut packet = payload_frame(&[1]);
    radio.send(&mut packet, 0);
    assert!(radio.on_ack_timeout(5).is_empty());
    let step = radio.poll(done(), &IDLE_BUFFER, 6);
    assert_eq!(step.commands[1], Command::OpenAckWindow(1000));
    let mut listener = node(0, 6);
    listener.receive();
    assert!(listener.on_ack_timeout(5).is_empty());
    let step = listener.poll(done(), &IDLE_BUFFER, 6);
    assert_eq!(step.commands[0], Command::ClearDisabledEvent);
}

#[test]
fn receive_listens_acks_and_hands_out() {
    let mut receiver = node(0, 6);
    assert_eq!(receiver.receive(), arm_rx());
    let mut frame = payload_frame(&[1, 2, 3]);
    frame.set_id(9);
    frame.set_type(PacketType::Data);
    let step = receiver.poll(heard(2), &frame.as_bytes(), 50);
    let mut expected = vec![
        Command::ClearDisabledEvent,
        Command::ClearCrcOkEvent,
        Command::Delay(40),
    ];
    expected.extend(arm_tx(ack_frame(9, 2)));
    assert_eq!(step.commands, expected);
    assert_eq!(step.outcome, Outcome::Pending);
    let step = receiver.poll(done(), &IDLE_BUFFER, 60);
    assert_eq!(step.commands, vec![Command::ClearDisabledEvent]);
    match step.outcome {
        Outcome::Received(handed) => {
            assert_eq!(handed.payload(), &[1u8, 2, 3][..]);
            assert_eq!(handed.id(), 9);
            assert_eq!(handed.addr(), 2);
            assert_eq!(handed.as_bytes(), frame.as_bytes());
        }
        other => panic!("nothing handed out: {:?}", other),
    }
    assert!(receiver.is_idle());
}

#[test]
fn receiver_drops_what_is_no_good_data_frame() {
    let mut data = payload_frame(&[1]);
    data.set_id(1);
    data.set_type(PacketType::Data);
    let mut unknown = data.as_bytes();
    unknown[2] = 2;
    let mut too_long = data.as_bytes();
    too_long[0] = 35;
    let mut too_short = data.as_bytes();
    too_short[0] = 1;
    let bad: Vec<(RadioEvents, [u8; 35])> = vec![
        (done(), data.as_bytes()),
        (heard(1), ack_frame(1, 1).as_bytes()),
        (heard(1), unknown),
        (heard(1), too_long),
        (heard(1), too_short),
        (heard(8), data.as_bytes()),
        (heard(255), data.as_bytes()),
    ];
    for (events, bytes) in bad {
        let mut receiver = node(0, 6);
        receiver.receive();
        let step = receiver.poll(events, &bytes, 1);
        assert_eq!(step.outcome, Outcome::Pending);
        let mut expected = vec![Command::ClearDisabledEvent];
        if events.crc_ok {
            expected.push(Command::ClearCrcOkEvent);
        }
        expected.extend(arm_rx());
        assert_eq!(step.commands, expected);
        // still listening: a good frame is taken next
        let (ack, handed) = hear(&mut receiver, 1, &data, 2);
        assert_eq!(ack, ack_frame(1, 1));
        assert_eq!(handed, Outcome::Received(Packet::from_bytes(1, data.as_bytes()).unwrap()));
    }
}

#[test]
fn round_trip_of_every_payload_length() {
    let mut sender = node(1, 1);
    let mut receiver = node(0, 6);
    for len in 0usize..=32 {
        let payload: Vec<u8> = (0..len).map(|i| (i * 7 + len) as u8).collect();
        let (_, handed, report) = exchange(&mut sender, &mut receiver, &payload, 10);
        match handed {
            Outcome::Received(packet) => {
                assert_eq!(packet.payload(), &payload[..]);
                assert_eq!(packet.addr(), 1);
            }
            other => panic!("not handed out: {:?}", other),
        }
        assert_eq!(report, Outcome::Sent(LogInfo { retransmissions: 0, time_elapsed: 3 }));
    }
}

#[test]
fn lost_ack_scenario() {
    let mut sender = node(1, 1);
    let mut receiver = node(0, 6);
    for k in 1u8..=4 {
        let (frame, handed, _) = exchange(&mut sender, &mut receiver, &[k], 0);
        assert_eq!(frame.id(), k);
        assert!(matches!(handed, Outcome::Received(_)));
    }
    // the receiver last saw id 4 from address 1; the next frame has id 5
    let mut packet = payload_frame(&[1, 2, 3]);
    let commands = sender.send(&mut packet, 100);
    let frame = on_air(&commands);
    assert_eq!(frame.id(), 5);
    sender.poll(done(), &IDLE_BUFFER, 110);

    receiver.receive();
    let (ack, handed) = hear(&mut receiver, 1, &frame, 120);
    assert_eq!(ack, ack_frame(5, 1));
    match handed {
        Outcome::Received(packet) => assert_eq!(packet.payload(), &[1u8, 2, 3][..]),
        other => panic!("not handed out: {:?}", other),
    }

    // the ack is lost: the window closes and the frame goes out again
    let commands = sender.on_ack_timeout(1110);
    let again = on_air(&commands);
    assert_eq!(again, frame);
    assert_eq!(again.id(), 5);
    sender.poll(done(), &IDLE_BUFFER, 1120);

    receiver.receive();
    let (ack, handed) = hear(&mut receiver, 1, &again, 1130);
    assert_eq!(ack, ack_frame(5, 1));
    assert_eq!(handed, Outcome::Pending);
    assert!(!receiver.is_idle());

    let step = sender.poll(heard(0), &ack.as_bytes(), 1150);
    assert_eq!(
        step.outcome,
        Outcome::Sent(LogInfo { retransmissions: 1, time_elapsed: 40 })
    );
    assert!(sender.is_idle());
}

#[test]
fn repeated_frame_is_acked_every_time_and_handed_out_once() {
    let mut receiver = node(0, 6);
    receiver.receive();
    let mut frame = payload_frame(&[8]);
    frame.set_id(5);
    frame.set_type(PacketType::Data);
    let (ack, handed) = hear(&mut receiver, 2, &frame, 0);
    assert_eq!(ack, ack_frame(5, 2));
    assert!(matches!(handed, Outcome::Received(_)));
    receiver.receive();
    for _ in 0..10 {
        let (ack, handed) = hear(&mut receiver, 2, &frame, 0);
        assert_eq!(ack, ack_frame(5, 2));
        assert_eq!(handed, Outcome::Pending);
    }
    // the same id from another address is another frame
    let (ack, handed) = hear(&mut receiver, 1, &frame, 0);
    assert_eq!(ack, ack_frame(5, 1));
    assert!(matches!(handed, Outcome::Received(_)));
}

#[test]
fn three_hundred_sends_wrap_the_ids() {
    let mut sender = node(2, 1);
    let mut receiver = node(0, 6);
    let mut ids = Vec::new();
    let mut delivered = Vec::new();
    for k in 0u32..300 {
        let payload = [(k % 256) as u8, (k / 256) as u8];
        let (frame, handed, report) = exchange(&mut sender, &mut receiver, &payload, k as u64);
        ids.push(frame.id());
        if let Outcome::Received(packet) = handed {
            delivered.push(packet.payload().to_vec());
        }
        assert!(matches!(report, Outcome::Sent(_)));
    }
    let expected_ids: Vec<u8> = (1u32..=300).map(|k| (k % 256) as u8).collect();
    assert_eq!(ids, expected_ids);
    assert_eq!(ids[254], 255);
    assert_eq!(ids[255], 0);
    assert_eq!(ids[256], 1);
    let expected: Vec<Vec<u8>> =
        (0u32..300).map(|k| vec![(k % 256) as u8, (k / 256) as u8]).collect();
    assert_eq!(delivered, expected);
}

#[test]
fn frames_are_handed_out_in_the_order_sent() {
    let mut left = node(1, 1);
    let mut right = node(2, 1);
    let mut dongle = node(0, 6);
    let mut seen = Vec::new();
    for k in 0u8..20 {
        let sender = if k % 3 == 0 { &mut right } else { &mut left };
        let addr = sender.tx_addresses();
        let (_, handed, _) = exchange(sender, &mut dongle, &[k], 0);
        if let Outcome::Received(packet) = handed {
            seen.push((packet.addr(), packet.payload()[0]));
            assert_eq!(packet.addr(), addr);
        }
    }
    let expected: Vec<(u8, u8)> =
        (0u8..20).map(|k| (if k % 3 == 0 { 2 } else { 1 }, k)).collect();
    assert_eq!(seen, expected);
}

#[test]
fn cancel_tears_down_whatever_is_in_flight() {
    let mut radio = node(1, 1);
    assert!(radio.cancel().is_empty());

    radio.receive();
    assert_eq!(radio.cancel(), teardown());
    assert!(radio.is_idle());
    assert!(radio.cancel().is_empty());

    let mut packet = payload_frame(&[1]);
    radio.send(&mut packet, 0);
    assert_eq!(radio.cancel(), teardown());
    assert!(radio.is_idle());

    radio.send(&mut packet, 0);
    radio.poll(done(), &IDLE_BUFFER, 1);
    assert_eq!(radio.cancel(), teardown());
    assert!(radio.is_idle());

    // ready for the next operation at once
    assert_eq!(radio.receive(), arm_rx());
    let mut frame = payload_frame(&[3]);
    frame.set_id(4);
    frame.set_type(PacketType::Data);
    radio.poll(heard(1), &frame.as_bytes(), 2);
    assert_eq!(radio.cancel(), teardown());
    assert_eq!(radio.receive(), arm_rx());
}

#[test]
fn cancelled_send_leaves_the_id_used() {
    let mut sender = node(1, 1);
    let mut first = payload_frame(&[1]);
    sender.send(&mut first, 0);
    sender.cancel();
    let mut second = payload_frame(&[2]);
    sender.send(&mut second, 0);
    assert_eq!(first.id(), 1);
    assert_eq!(second.id(), 2);
}

#[test]
fn phase_names_what_is_in_flight() {
    assert_ne!(Phase::Idle, Phase::Sending);
    assert_ne!(Phase::AwaitingAck, Phase::Receiving);
    assert_ne!(Phase::Receiving, Phase::Acking);
}
