//! The rules of the link that both transports share: sequence ids, what an
//! ack looks like, which ack settles a send, and when a data frame is new.

use vstd::prelude::*;

use super::packet::{Packet, PacketType, PacketView, FRAME_SIZE};

verus! {

/// Length of the window after a transmission in which its ack must arrive,
/// in microseconds.
pub const ACK_WINDOW_MICROS: u64 = 1000;

/// Pause between the end of a reception and the start of its ack, in
/// microseconds.
pub const ACK_DELAY_MICROS: u64 = 40;

/// The sequence id that follows `id`: one more, and 0 after 255.
pub open spec fn spec_next_id(id: u8) -> u8 {
    if id == 255 {
        0
    } else {
        (id + 1) as u8
    }
}

/// The sequence id that follows `id`.
#[verifier::when_used_as_spec(spec_next_id)]
pub fn next_id(id: u8) -> (next: u8)
    ensures
        next == spec_next_id(id),
{
    id.wrapping_add(1)
}

/// The id of the `n`-th frame after the one with id `first`.
pub open spec fn spec_nth_id(first: u8, n: nat) -> u8 {
    ((first + n) % 256) as u8
}

/// The data frame that carries `packet` under the sequence id `id`.
pub open spec fn spec_data_frame(packet: Packet, id: u8) -> Packet {
    packet.spec_set_id(id).spec_set_type(PacketType::Data)
}

/// A data frame carries the payload of its packet, under its id, and counts
/// as data.
pub proof fn lemma_data_frame(packet: Packet, id: u8)
    requires
        packet.wf(),
    ensures
        spec_data_frame(packet, id).wf(),
        spec_data_frame(packet, id)@ == (PacketView {
            id,
            type_byte: PacketType::Data.spec_to_byte(),
            ..packet@
        }),
        spec_is_data(spec_data_frame(packet, id)),
{
    packet.lemma_set_header(id, PacketType::Data);
    packet.spec_set_id(id).lemma_set_header(id, PacketType::Data);
}

/// The bytes of the ack for frame `id` received on address `addr`: declared
/// length 3, the id, type Ack, the address as the only payload byte, and the
/// fill of an empty frame behind it.
pub open spec fn spec_ack_bytes(id: u8, addr: u8) -> [u8; FRAME_SIZE] {
    [
        3, id, 1, addr, 2, 2, 2, 2, 2, 2, 2, 2, 2, 2, 2, 2, 2, 2, 2, 2, 2, 2, 2, 2, 2, 2, 2, 2, 2,
        2, 2, 2, 2, 2, 2,
    ]
}

/// The ack for frame `id` received on address `addr`.
pub open spec fn spec_ack_frame(id: u8, addr: u8) -> Packet {
    Packet::spec_from_bytes(0, spec_ack_bytes(id, addr)).unwrap()
}

/// Builds the ack for frame `id` received on address `addr`.
pub fn ack_frame(id: u8, addr: u8) -> (ack: Packet)
    ensures
        ack == spec_ack_frame(id, addr),
        ack.wf(),
        ack@ == (PacketView {
            addr: 0,
            id,
            type_byte: PacketType::Ack.spec_to_byte(),
            payload: seq![addr],
        }),
        spec_is_ack_for(ack, id, addr),
{
    let mut ack = Packet::default();
    ack.set_type(PacketType::Ack);
    ack.set_len(1);
    ack.set_id(id);
    ack.set_byte(0, addr);
    proof {
        Packet::lemma_from_bytes(0, spec_ack_bytes(id, addr));
        assert(ack.wire() =~= spec_ack_bytes(id, addr)@);
        Packet::lemma_same_frame(ack, spec_ack_frame(id, addr));
        assert(ack@.payload =~= seq![addr]);
    }
    ack
}

/// An ack settles the send that it answers, and no send with another id or
/// from another address.
pub proof fn lemma_ack_settles(id: u8, addr: u8, other_id: u8, other_addr: u8)
    ensures
        spec_ack_frame(id, addr).wf(),
        spec_is_ack_for(spec_ack_frame(id, addr), other_id, other_addr) <==> (id == other_id
            && addr == other_addr),
        !spec_is_data(spec_ack_frame(id, addr)),
{
    Packet::lemma_from_bytes(0, spec_ack_bytes(id, addr));
}

/// Whether `frame` acknowledges the frame `id` sent from address `addr`.
pub open spec fn spec_is_ack_for(frame: Packet, id: u8, addr: u8) -> bool {
    &&& frame@.type_byte == PacketType::Ack.spec_to_byte()
    &&& frame@.id == id
    &&& frame@.payload.len() >= 1
    &&& frame@.payload[0] == addr
}

/// Whether `frame` acknowledges the frame `id` sent from address `addr`.
pub fn is_ack_for(frame: &Packet, id: u8, addr: u8) -> (settles: bool)
    ensures
        settles == spec_is_ack_for(*frame, id, addr),
{
    match frame.packet_type() {
        Ok(PacketType::Ack) => frame.id() == id && frame.len() >= 1 && frame.payload()[0] == addr,
        _ => false,
    }
}

/// Whether `frame` carries data.
pub open spec fn spec_is_data(frame: Packet) -> bool {
    frame@.type_byte == PacketType::Data.spec_to_byte()
}

/// Whether `frame` carries data.
pub fn is_data(frame: &Packet) -> (data: bool)
    ensures
        data == spec_is_data(*frame),
{
    match frame.packet_type() {
        Ok(PacketType::Data) => true,
        _ => false,
    }
}

/// The table of last seen ids after a data frame `id` has come in on
/// `addr`, and whether the frame is handed out. A frame is new when its id
/// differs from the last one that was handed out from its address.
pub open spec fn spec_admit(last_seen: Seq<u8>, addr: u8, id: u8) -> (Seq<u8>, bool)
    recommends
        addr < last_seen.len(),
{
    if last_seen[addr as int] != id {
        (last_seen.update(addr as int, id), true)
    } else {
        (last_seen, false)
    }
}

/// The table of last seen ids after the data frames `arrivals`, each given
/// by its address and id, have come in one after the other, and the
/// positions in `arrivals` of those that are handed out.
pub open spec fn spec_admit_all(last_seen: Seq<u8>, arrivals: Seq<(u8, u8)>) -> (Seq<u8>, Seq<int>)
    decreases arrivals.len(),
{
    if arrivals.len() == 0 {
        (last_seen, Seq::empty())
    } else {
        let (before, handed) = spec_admit_all(last_seen, arrivals.drop_last());
        let (after, novel) = spec_admit(before, arrivals.last().0, arrivals.last().1);
        (
            after,
            if novel {
                handed.push(arrivals.len() - 1)
            } else {
                handed
            },
        )
    }
}

/// The ids of `n` frames sent one after the other from address `addr`, the
/// first with id `first`, as they arrive.
pub open spec fn spec_run_of_sends(addr: u8, first: u8, n: nat) -> Seq<(u8, u8)> {
    Seq::new(n, |k: int| (addr, spec_nth_id(first, k as nat)))
}

/// Sequence ids count up and start over after 255: the id that follows is
/// never the id itself, and after 256 sends the ids repeat.
pub proof fn lemma_ids_cycle(first: u8, n: nat)
    ensures
        spec_nth_id(first, 0) == first,
        spec_nth_id(first, n + 1) == spec_next_id(spec_nth_id(first, n)),
        spec_nth_id(first, n + 256) == spec_nth_id(first, n),
        spec_next_id(first) != first,
        spec_nth_id(first, n + 1) != spec_nth_id(first, n),
{
}

/// Frames are handed out in the order in which they arrive: the positions
/// of the frames handed out rise strictly and lie inside the arrivals, and
/// the table keeps a slot for every address.
pub proof fn lemma_admitted_in_order(last_seen: Seq<u8>, arrivals: Seq<(u8, u8)>)
    requires
        forall|k: int| 0 <= k < arrivals.len() ==> (#[trigger] arrivals[k]).0 < last_seen.len(),
    ensures
        spec_admit_all(last_seen, arrivals).0.len() == last_seen.len(),
        forall|i: int|
            0 <= i < spec_admit_all(last_seen, arrivals).1.len() ==> 0
                <= (#[trigger] spec_admit_all(last_seen, arrivals).1[i]) < arrivals.len(),
        forall|i: int, j: int|
            0 <= i < j < spec_admit_all(last_seen, arrivals).1.len() ==> spec_admit_all(
                last_seen,
                arrivals,
            ).1[i] < spec_admit_all(last_seen, arrivals).1[j],
    decreases arrivals.len(),
{
    if arrivals.len() > 0 {
        let earlier = arrivals.drop_last();
        lemma_admitted_in_order(last_seen, earlier);
    }
}

/// A frame that arrives again right after it was handed out is not handed
/// out a second time, however often it arrives, and the table stays as the
/// first arrival left it.
pub proof fn lemma_repeat_is_dropped(last_seen: Seq<u8>, addr: u8, id: u8)
    requires
        addr < last_seen.len(),
    ensures
        spec_admit(spec_admit(last_seen, addr, id).0, addr, id) == (
            spec_admit(last_seen, addr, id).0,
            false,
        ),
        spec_admit(last_seen, addr, id).0[addr as int] == id,
{
}

/// However many frames one sender sends in a row, each is handed out
/// exactly once and none is taken for a repeat, also where the ids start
/// over, as long as the receiver has not last seen the first id from that
/// sender.
pub proof fn lemma_run_of_sends_all_delivered(last_seen: Seq<u8>, addr: u8, first: u8, n: nat)
    requires
        addr < last_seen.len(),
        last_seen[addr as int] != first,
    ensures
        spec_admit_all(last_seen, spec_run_of_sends(addr, first, n)).1 == Seq::new(n, |k: int| k),
        n > 0 ==> spec_admit_all(last_seen, spec_run_of_sends(addr, first, n)).0[addr as int]
            == spec_nth_id(first, (n - 1) as nat),
        spec_admit_all(last_seen, spec_run_of_sends(addr, first, n)).0.len() == last_seen.len(),
    decreases n,
{
    let run = spec_run_of_sends(addr, first, n);
    if n > 0 {
        let shorter = spec_run_of_sends(addr, first, (n - 1) as nat);
        assert(run.drop_last() =~= shorter);
        lemma_run_of_sends_all_delivered(last_seen, addr, first, (n - 1) as nat);
    }
}

/// Clock ticks from `start` to `now`, and none where the clock stood still
/// or ran backwards.
pub open spec fn spec_elapsed(start: u64, now: u64) -> u64 {
    if now >= start {
        (now - start) as u64
    } else {
        0
    }
}

/// One more retransmission, where the counter has room for it.
pub open spec fn spec_bump(count: u32) -> u32 {
    if count < u32::MAX {
        (count + 1) as u32
    } else {
        count
    }
}

} // verus!
