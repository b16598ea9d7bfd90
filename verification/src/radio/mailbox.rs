//! The request queues in front of the radio.
//!
//! Any task may file a send or a receive and pick up what has come in; one
//! owner takes the requests in the order in which they were filed and is the
//! only one to drive the radio. Both queues hold at most twenty entries; a
//! task that finds a queue full waits and tries again.

use embassy_sync::blocking_mutex::raw::CriticalSectionRawMutex;
use embassy_sync::channel::Channel;
use vstd::prelude::*;

use super::command::{Command, Outcome};
use super::packet::Packet;
use super::transport::{Phase, Radio, RadioView};

verus! {

/// The number of entries that each queue holds.
pub const NUM_PACKETS: usize = 20;

/// What a task asks of the owner of the radio.
#[derive(Clone, Copy, PartialEq, Eq, Debug)]
pub enum Request {
    /// Send this frame.
    Send(Packet),
    /// Listen until a new data frame has come in.
    Receive,
}

/// The queue has no room at the moment.
#[derive(Clone, Copy, PartialEq, Eq, Structural, Debug)]
pub struct QueueFull;

/// A queue of requests: an `embassy_sync::channel::Channel` with room for
/// twenty, which this library reaches only through the functions below.
#[verifier::external_body]
pub struct RequestQueue {
    inner: Channel<CriticalSectionRawMutex, Request, NUM_PACKETS>,
}

/// A queue of frames: an `embassy_sync::channel::Channel` with room for
/// twenty, which this library reaches only through the functions below.
#[verifier::external_body]
pub struct PacketQueue {
    inner: Channel<CriticalSectionRawMutex, Packet, NUM_PACKETS>,
}

/// The requests that wait in a queue, oldest first.
pub uninterp spec fn request_queue_items(queue: RequestQueue) -> Seq<Request>;

/// The frames that wait in a queue, oldest first.
pub uninterp spec fn packet_queue_items(queue: PacketQueue) -> Seq<Packet>;

/// `embassy_sync::channel::Channel::new`: the new channel holds nothing.
#[verifier::external_body]
fn request_queue_new() -> (queue: RequestQueue)
    ensures
        request_queue_items(queue) == Seq::<Request>::empty(),
{
    RequestQueue { inner: Channel::new() }
}

/// `embassy_sync::channel::Channel::try_send`: a channel with fewer than
/// twenty entries takes the message behind the ones it holds and says so;
/// a full one refuses it and stays as it is.
#[verifier::external_body]
fn request_queue_try_send(queue: &mut RequestQueue, request: Request) -> (sent: bool)
    ensures
        sent == (request_queue_items(*old(queue)).len() < NUM_PACKETS),
        sent ==> request_queue_items(*final(queue)) == request_queue_items(*old(queue)).push(
            request,
        ),
        !sent ==> request_queue_items(*final(queue)) == request_queue_items(*old(queue)),
{
    queue.inner.try_send(request).is_ok()
}

/// `embassy_sync::channel::Channel::try_receive`: a channel that holds
/// something gives up its oldest message; an empty one gives nothing and
/// stays empty.
#[verifier::external_body]
fn request_queue_try_receive(queue: &mut RequestQueue) -> (request: Option<Request>)
    ensures
        request_queue_items(*old(queue)).len() == 0 ==> request is None && request_queue_items(
            *final(queue),
        ) == request_queue_items(*old(queue)),
        request_queue_items(*old(queue)).len() > 0 ==> request == Some(
            request_queue_items(*old(queue))[0],
        ) && request_queue_items(*final(queue)) == request_queue_items(*old(queue)).drop_first(),
{
    queue.inner.try_receive().ok()
}

/// `embassy_sync::channel::Channel::new`: the new channel holds nothing.
#[verifier::external_body]
fn packet_queue_new() -> (queue: PacketQueue)
    ensures
        packet_queue_items(queue) == Seq::<Packet>::empty(),
{
    PacketQueue { inner: Channel::new() }
}

/// `embassy_sync::channel::Channel::try_send`: a channel with fewer than
/// twenty entries takes the message behind the ones it holds and says so;
/// a full one refuses it and stays as it is.
#[verifier::external_body]
fn packet_queue_try_send(queue: &mut PacketQueue, packet: Packet) -> (sent: bool)
    ensures
        sent == (packet_queue_items(*old(queue)).len() < NUM_PACKETS),
        sent ==> packet_queue_items(*final(queue)) == packet_queue_items(*old(queue)).push(packet),
        !sent ==> packet_queue_items(*final(queue)) == packet_queue_items(*old(queue)),
{
    queue.inner.try_send(packet).is_ok()
}

/// `embassy_sync::channel::Channel::try_receive`: a channel that holds
/// something gives up its oldest message; an empty one gives nothing and
/// stays empty.
#[verifier::external_body]
fn packet_queue_try_receive(queue: &mut PacketQueue) -> (packet: Option<Packet>)
    ensures
        packet_queue_items(*old(queue)).len() == 0 ==> packet is None && packet_queue_items(
            *final(queue),
        ) == packet_queue_items(*old(queue)),
        packet_queue_items(*old(queue)).len() > 0 ==> packet == Some(
            packet_queue_items(*old(queue))[0],
        ) && packet_queue_items(*final(queue)) == packet_queue_items(*old(queue)).drop_first(),
{
    queue.inner.try_receive().ok()
}

/// What waits in the two queues, oldest first.
pub struct MailboxView {
    pub requests: Seq<Request>,
    pub deliveries: Seq<Packet>,
}

pub struct Mailbox {
    requests: RequestQueue,
    deliveries: PacketQueue,
}

impl View for Mailbox {
    type V = MailboxView;

    closed spec fn view(&self) -> MailboxView {
        MailboxView {
            requests: request_queue_items(self.requests),
            deliveries: packet_queue_items(self.deliveries),
        }
    }
}

impl MailboxView {
    /// The mailbox after an attempt to file `request`: a queue with room
    /// takes it behind the requests that wait, a full one refuses it.
    pub open spec fn spec_file(self, request: Request) -> (MailboxView, Result<(), QueueFull>) {
        if self.requests.len() < NUM_PACKETS {
            (MailboxView { requests: self.requests.push(request), ..self }, Ok(()))
        } else {
            (self, Err(QueueFull))
        }
    }

    /// The mailbox after its owner has asked for the next request, and the
    /// request: the oldest one, if any waits.
    pub open spec fn spec_next_request(self) -> (MailboxView, Option<Request>) {
        if self.requests.len() > 0 {
            (MailboxView { requests: self.requests.drop_first(), ..self }, Some(self.requests[0]))
        } else {
            (self, None)
        }
    }

    /// The mailbox after an attempt to put the frame `packet` that has come
    /// in behind the frames that wait to be picked up.
    pub open spec fn spec_deliver(self, packet: Packet) -> (MailboxView, Result<(), QueueFull>) {
        if self.deliveries.len() < NUM_PACKETS {
            (MailboxView { deliveries: self.deliveries.push(packet), ..self }, Ok(()))
        } else {
            (self, Err(QueueFull))
        }
    }

    /// The mailbox after a task has asked for a frame that has come in, and
    /// the frame: the oldest one, if any waits.
    pub open spec fn spec_pick_up(self) -> (MailboxView, Option<Packet>) {
        if self.deliveries.len() > 0 {
            (
                MailboxView { deliveries: self.deliveries.drop_first(), ..self },
                Some(self.deliveries[0]),
            )
        } else {
            (self, None)
        }
    }

    /// The mailbox and the link after the owner has looked for work at
    /// `now`, and the commands that begin the work. An idle link begins the
    /// oldest request; a busy link, or an empty queue, leaves all as it is.
    pub open spec fn spec_start_next(self, radio: RadioView, now: u64) -> (
        MailboxView,
        RadioView,
        Seq<Command>,
    ) {
        if radio.phase != Phase::Idle {
            (self, radio, Seq::empty())
        } else {
            match self.spec_next_request().1 {
                Some(Request::Send(packet)) => (
                    self.spec_next_request().0,
                    radio.spec_send(packet, now).0,
                    radio.spec_send(packet, now).1,
                ),
                Some(Request::Receive) => (
                    self.spec_next_request().0,
                    radio.spec_receive().0,
                    radio.spec_receive().1,
                ),
                None => (self, radio, Seq::empty()),
            }
        }
    }

    /// The mailbox after the owner has brought what the link handed out: a
    /// frame that has come in goes behind the frames that wait, if there is
    /// room; anything else leaves the mailbox as it is.
    pub open spec fn spec_hand_out(self, outcome: Outcome) -> (MailboxView, Result<(), QueueFull>) {
        match outcome {
            Outcome::Received(packet) => self.spec_deliver(packet),
            _ => (self, Ok(())),
        }
    }

    /// The mailbox after `requests` have been filed one after the other.
    pub open spec fn spec_file_all(self, requests: Seq<Request>) -> MailboxView
        decreases requests.len(),
    {
        if requests.len() == 0 {
            self
        } else {
            self.spec_file_all(requests.drop_last()).spec_file(requests.last()).0
        }
    }

    /// The first `n` requests that the owner is given, in the order in
    /// which it is given them.
    pub open spec fn spec_take(self, n: nat) -> Seq<Request>
        decreases n,
    {
        if n == 0 || self.requests.len() == 0 {
            Seq::empty()
        } else {
            seq![self.spec_next_request().1.unwrap()] + self.spec_next_request().0.spec_take(
                (n - 1) as nat,
            )
        }
    }

    /// As long as the queue has room, what is filed waits behind what
    /// waited before.
    pub proof fn lemma_file_all(self, requests: Seq<Request>)
        requires
            self.requests.len() + requests.len() <= NUM_PACKETS,
        ensures
            self.spec_file_all(requests) == (MailboxView {
                requests: self.requests + requests,
                ..self
            }),
        decreases requests.len(),
    {
        if requests.len() > 0 {
            self.lemma_file_all(requests.drop_last());
            assert((self.requests + requests.drop_last()).push(requests.last()) =~= self.requests
                + requests);
        }
    }

    /// The owner is given the requests that wait, oldest first.
    pub proof fn lemma_take(self, n: nat)
        requires
            n <= self.requests.len(),
        ensures
            self.spec_take(n) == self.requests.subrange(0, n as int),
        decreases n,
    {
        if n > 0 {
            let rest = self.spec_next_request().0;
            rest.lemma_take((n - 1) as nat);
            assert(seq![self.requests[0]] + self.requests.drop_first().subrange(0, n - 1)
                =~= self.requests.subrange(0, n as int));
        }
    }

    /// First in, first out: requests filed into an empty mailbox reach its
    /// owner in the order in which they were filed.
    pub proof fn lemma_first_in_first_out(self, requests: Seq<Request>)
        requires
            self.requests.len() == 0,
            requests.len() <= NUM_PACKETS,
        ensures
            self.spec_file_all(requests).spec_take(requests.len()) == requests,
    {
        self.lemma_file_all(requests);
        self.spec_file_all(requests).lemma_take(requests.len());
    }
}

impl Mailbox {
    /// A mailbox with nothing in it.
    pub fn new() -> (mailbox: Mailbox)
        ensures
            mailbox@.requests == Seq::<Request>::empty(),
            mailbox@.deliveries == Seq::<Packet>::empty(),
    {
        Mailbox { requests: request_queue_new(), deliveries: packet_queue_new() }
    }

    /// Files a request behind the ones that wait.
    fn file(&mut self, request: Request) -> (filed: Result<(), QueueFull>)
        ensures
            (final(self)@, filed) == old(self)@.spec_file(request),
    {
        if request_queue_try_send(&mut self.requests, request) {
            Ok(())
        } else {
            Err(QueueFull)
        }
    }

    /// Files a receive behind the requests that wait. A full queue refuses
    /// it; the task then waits and tries again.
    pub fn request_receive(&mut self) -> (filed: Result<(), QueueFull>)
        ensures
            (final(self)@, filed) == old(self)@.spec_file(Request::Receive),
    {
        self.file(Request::Receive)
    }

    /// Takes the oldest request, for the owner of the radio to carry out.
    pub fn next_request(&mut self) -> (request: Option<Request>)
        ensures
            (final(self)@, request) == old(self)@.spec_next_request(),
    {
        request_queue_try_receive(&mut self.requests)
    }

    /// Puts a frame that has come in behind the ones that wait to be picked
    /// up. A full queue refuses it; the owner then waits and tries again.
    pub fn deliver(&mut self, packet: Packet) -> (delivered: Result<(), QueueFull>)
        ensures
            (final(self)@, delivered) == old(self)@.spec_deliver(packet),
    {
        if packet_queue_try_send(&mut self.deliveries, packet) {
            Ok(())
        } else {
            Err(QueueFull)
        }
    }
}

impl Mailbox {
    /// The owner's look for work: on an idle link, begins the oldest request
    /// that waits.
    pub fn start_next(&mut self, radio: &mut Radio, now: u64) -> (commands: Vec<Command>)
        ensures
            (final(self)@, final(radio)@, commands@) == old(self)@.spec_start_next(
                old(radio)@,
                now,
            ),
    {
        if !radio.is_idle() {
            return Vec::new();
        }
        match self.next_request() {
            Some(Request::Send(packet)) => {
                let mut packet = packet;
                radio.send(&mut packet, now)
            },
            Some(Request::Receive) => radio.receive(),
            None => Vec::new(),
        }
    }

    /// The owner's way with what the link handed out: a frame that has come
    /// in is put where tasks pick it up. A full queue refuses it; the owner
    /// then waits and tries again.
    pub fn hand_out(&mut self, outcome: Outcome) -> (delivered: Result<(), QueueFull>)
        ensures
            (final(self)@, delivered) == old(self)@.spec_hand_out(outcome),
    {
        match outcome {
            Outcome::Received(packet) => self.deliver(packet),
            _ => Ok(()),
        }
    }
}

/// Files a send of `packet` behind the requests that wait. A full queue
/// refuses it; the task then waits and tries again.
pub fn send_packet(mailbox: &mut Mailbox, packet: &Packet) -> (filed: Result<(), QueueFull>)
    ensures
        (final(mailbox)@, filed) == old(mailbox)@.spec_file(Request::Send(*packet)),
{
    mailbox.file(Request::Send(*packet))
}

/// Picks up the oldest frame that has come in, if there is one.
pub fn receive_packet(mailbox: &mut Mailbox) -> (packet: Option<Packet>)
    ensures
        (final(mailbox)@, packet) == old(mailbox)@.spec_pick_up(),
{
    packet_queue_try_receive(&mut mailbox.deliveries)
}

} // verus!
