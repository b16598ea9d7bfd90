use bruh78::radio::{
    receive_packet, send_packet, Command, Mailbox, Outcome, Packet, QueueFull, Radio, Request,
};
use bruh78::radio::{Addresses, LogInfo, PacketType};

fn frame(tag: u8) -> Packet {
    let mut packet = Packet::default();
    packet.copy_from_slice(&[tag, tag.wrapping_add(1)]).unwrap();
    packet
}

#[test]
fn new_mailbox_is_empty() {
    let mut mailbox = Mailbox::new();
    assert_eq!(mailbox.next_request(), None);
    assert_eq!(receive_packet(&mut mailbox), None);
}

#[test]
fn requests_come_out_in_the_order_filed() {
    let mut mailbox = Mailbox::new();
    assert_eq!(send_packet(&mut mailbox, &frame(1)), Ok(()));
    assert_eq!(mailbox.request_receive(), Ok(()));
    assert_eq!(send_packet(&mut mailbox, &frame(2)), Ok(()));
    assert_eq!(send_packet(&mut mailbox, &frame(3)), Ok(()));
    assert_eq!(mailbox.next_request(), Some(Request::Send(frame(1))));
    assert_eq!(mailbox.next_request(), Some(Request::Receive));
    assert_eq!(mailbox.next_request(), Some(Request::Send(frame(2))));
    assert_eq!(mailbox.next_request(), Some(Request::Send(frame(3))));
    assert_eq!(mailbox.next_request(), None);
}

#[test]
fn request_queue_holds_twenty() {
    let mut mailbox = Mailbox::new();
    for tag in 0..20 {
        assert_eq!(send_packet(&mut mailbox, &frame(tag)), Ok(()));
    }
    assert_eq!(send_packet(&mut mailbox, &frame(20)), Err(QueueFull));
    assert_eq!(mailbox.request_receive(), Err(QueueFull));
    assert_eq!(mailbox.next_request(), Some(Request::Send(frame(0))));
    assert_eq!(mailbox.request_receive(), Ok(()));
    assert_eq!(send_packet(&mut mailbox, &frame(21)), Err(QueueFull));
    for tag in 1..20 {
        assert_eq!(mailbox.next_request(), Some(Request::Send(frame(tag))));
    }
    assert_eq!(mailbox.next_request(), Some(Request::Receive));
    assert_eq!(mailbox.next_request(), None);
}

#[test]
fn deliveries_come_out_in_the_order_delivered() {
    let mut mailbox = Mailbox::new();
    for tag in 0..20 {
        assert_eq!(mailbox.deliver(frame(tag)), Ok(()));
    }
    assert_eq!(mailbox.deliver(frame(99)), Err(QueueFull));
    for tag in 0..20 {
        assert_eq!(receive_packet(&mut mailbox), Some(frame(tag)));
    }
    assert_eq!(receive_packet(&mut mailbox), None);
    assert_eq!(mailbox.next_request(), None);
}

#[test]
fn the_two_queues_do_not_mix() {
    let mut mailbox = Mailbox::new();
    send_packet(&mut mailbox, &frame(1)).unwrap();
    assert_eq!(receive_packet(&mut mailbox), None);
    mailbox.deliver(frame(2)).unwrap();
    assert_eq!(mailbox.next_request(), Some(Request::Send(frame(1))));
    assert_eq!(mailbox.next_request(), None);
    assert_eq!(receive_packet(&mut mailbox), Some(frame(2)));
}

#[test]
fn owner_begins_the_oldest_request_on_an_idle_link() {
    let mut mailbox = Mailbox::new();
    let mut radio = Radio::new(Addresses::default());
    assert!(mailbox.start_next(&mut radio, 0).is_empty());
    assert!(radio.is_idle());

    send_packet(&mut mailbox, &frame(7)).unwrap();
    mailbox.request_receive().unwrap();
    let commands = mailbox.start_next(&mut radio, 10);
    assert!(!radio.is_idle());
    let mut sent = frame(7);
    sent.set_id(1);
    sent.set_type(PacketType::Data);
    assert_eq!(commands[0], Command::LoadFrame(sent));
    assert_eq!(commands[2], Command::StartTx);

    // a busy link takes no further request
    assert!(mailbox.start_next(&mut radio, 11).is_empty());
    radio.cancel();
    let commands = mailbox.start_next(&mut radio, 12);
    assert_eq!(commands[2], Command::StartRx);
    radio.cancel();
    assert!(mailbox.start_next(&mut radio, 13).is_empty());
    assert!(radio.is_idle());
}

#[test]
fn owner_hands_out_only_what_was_received() {
    let mut mailbox = Mailbox::new();
    assert_eq!(mailbox.hand_out(Outcome::Pending), Ok(()));
    let info = LogInfo { retransmissions: 0, time_elapsed: 1 };
    assert_eq!(mailbox.hand_out(Outcome::Sent(info)), Ok(()));
    assert_eq!(receive_packet(&mut mailbox), None);
    assert_eq!(mailbox.hand_out(Outcome::Received(frame(4))), Ok(()));
    assert_eq!(receive_packet(&mut mailbox), Some(frame(4)));
    for tag in 0..20 {
        assert_eq!(mailbox.hand_out(Outcome::Received(frame(tag))), Ok(()));
    }
    assert_eq!(mailbox.hand_out(Outcome::Received(frame(20))), Err(QueueFull));
    assert_eq!(mailbox.hand_out(Outcome::Pending), Ok(()));
}
