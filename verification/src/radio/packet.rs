//! The fixed-size frame that travels over the air.
//!
//! Byte 0 holds the declared length (payload length plus the two header
//! bytes that follow it), byte 1 the sequence id, byte 2 the frame type and
//! bytes 3 to 34 the payload. Bytes past the declared length carry no
//! meaning.

use vstd::prelude::*;

verus! {

/// Payload capacity of a frame in bytes.
pub const BUFFER_SIZE: usize = 32;

/// Number of header bytes in front of the payload.
pub const META_SIZE: usize = 3;

/// Size of a whole frame on the wire.
pub const FRAME_SIZE: usize = 35;

/// What the declared length counts besides the payload: the id and the type.
pub const OVERHEAD: u8 = 2;

/// Largest declared length that a frame can carry.
pub const MAX_DECLARED: u8 = 34;

/// The two kinds of frame.
#[derive(Clone, Copy, PartialEq, Eq, Structural, Debug)]
pub enum PacketType {
    Data,
    Ack,
}

/// A type byte that names no kind of frame.
#[derive(Clone, Copy, PartialEq, Eq, Structural, Debug)]
pub struct FrameDecodeError {
    pub number: u8,
}

/// A payload longer than a frame can hold.
#[derive(Clone, Copy, PartialEq, Eq, Structural, Debug)]
pub struct PayloadTooLong {
    pub len: usize,
}

impl PacketType {
    /// The byte that stands for this kind on the wire.
    pub open spec fn spec_to_byte(self) -> u8 {
        match self {
            PacketType::Data => 0,
            PacketType::Ack => 1,
        }
    }

    /// The kind that a type byte names, if it names one.
    pub open spec fn spec_from_byte(number: u8) -> Result<PacketType, FrameDecodeError> {
        if number == 0 {
            Ok(PacketType::Data)
        } else if number == 1 {
            Ok(PacketType::Ack)
        } else {
            Err(FrameDecodeError { number })
        }
    }

    /// The byte that stands for this kind on the wire.
    #[verifier::when_used_as_spec(spec_to_byte)]
    pub fn to_byte(self) -> (byte: u8)
        ensures
            byte == self.spec_to_byte(),
    {
        match self {
            PacketType::Data => 0,
            PacketType::Ack => 1,
        }
    }

    /// The kind that a type byte names, or the byte itself where it names
    /// none.
    #[verifier::when_used_as_spec(spec_from_byte)]
    pub fn from_byte(number: u8) -> (kind: Result<PacketType, FrameDecodeError>)
        ensures
            kind == Self::spec_from_byte(number),
    {
        if number == 0 {
            Ok(PacketType::Data)
        } else if number == 1 {
            Ok(PacketType::Ack)
        } else {
            Err(FrameDecodeError { number })
        }
    }

    /// Decoding undoes encoding, and only the two known bytes decode.
    pub proof fn lemma_byte_round_trip(kind: PacketType, number: u8)
        ensures
            Self::spec_from_byte(kind.spec_to_byte()) == Ok::<PacketType, FrameDecodeError>(kind),
            Self::spec_from_byte(number) is Ok <==> number <= 1,
            Self::spec_from_byte(number) matches Ok(k) ==> k.spec_to_byte() == number,
            Self::spec_from_byte(number) matches Err(e) ==> e.number == number,
    {
    }
}

/// What a frame means: where it was matched, its header and its payload.
pub struct PacketView {
    pub addr: u8,
    pub id: u8,
    pub type_byte: u8,
    pub payload: Seq<u8>,
}

/// A frame: 35 bytes in wire order, and the logical address on which the
/// radio matched them.
#[derive(Clone, Copy, PartialEq, Eq, Debug)]
pub struct Packet {
    addr: u8,
    buffer: [u8; FRAME_SIZE],
}

impl View for Packet {
    type V = PacketView;

    open spec fn view(&self) -> PacketView {
        PacketView {
            addr: self.spec_addr(),
            id: self.wire()[1],
            type_byte: self.wire()[2],
            payload: self.wire().subrange(3, self.wire()[0] + 1),
        }
    }
}

impl Packet {
    /// The 35 bytes of the frame as they go over the air.
    pub closed spec fn wire(&self) -> Seq<u8> {
        self.buffer@
    }

    /// The logical address on which the frame was matched.
    pub closed spec fn spec_addr(&self) -> u8 {
        self.addr
    }

    /// The declared length covers the header and stays inside the frame.
    /// Every packet that exists at run time is like that.
    #[verifier::type_invariant]
    pub open spec fn wf(&self) -> bool {
        &&& self.wire().len() == FRAME_SIZE
        &&& OVERHEAD <= self.wire()[0] <= MAX_DECLARED
    }

    /// The length of the payload: the declared length less the header
    /// bytes that it counts.
    pub open spec fn spec_len(&self) -> nat {
        (self.wire()[0] - OVERHEAD) as nat
    }

    /// The frame that the buffer `bytes`, matched on `addr`, holds, if its
    /// declared length is one that a frame can have.
    pub closed spec fn spec_from_bytes(addr: u8, bytes: [u8; FRAME_SIZE]) -> Option<Packet> {
        if Self::well_formed(bytes@) {
            Some(Packet { addr, buffer: bytes })
        } else {
            None
        }
    }

    /// The whole frame as it goes over the air.
    pub closed spec fn spec_bytes(&self) -> [u8; FRAME_SIZE] {
        self.buffer
    }

    /// This frame under the sequence id `id`.
    pub closed spec fn spec_set_id(self, id: u8) -> Packet {
        Packet { addr: self.addr, buffer: vstd::array::spec_array_update(self.buffer, 1, id) }
    }

    /// This frame as one of kind `packet_type`.
    pub closed spec fn spec_set_type(self, packet_type: PacketType) -> Packet {
        Packet {
            addr: self.addr,
            buffer: vstd::array::spec_array_update(self.buffer, 2, packet_type.spec_to_byte()),
        }
    }

    /// Setting the id or the type changes that byte of the header and
    /// nothing else.
    pub proof fn lemma_set_header(self, id: u8, packet_type: PacketType)
        requires
            self.wf(),
        ensures
            self.spec_set_id(id).wf(),
            self.spec_set_id(id).wire() == self.wire().update(1, id),
            self.spec_set_id(id)@ == (PacketView { id, ..self@ }),
            self.spec_set_type(packet_type).wf(),
            self.spec_set_type(packet_type).wire() == self.wire().update(
                2,
                packet_type.spec_to_byte(),
            ),
            self.spec_set_type(packet_type)@ == (PacketView {
                type_byte: packet_type.spec_to_byte(),
                ..self@
            }),
    {
        assert(self.spec_set_id(id)@.payload =~= self@.payload);
        assert(self.spec_set_type(packet_type)@.payload =~= self@.payload);
    }

    /// A frame is its address and its wire bytes.
    pub proof fn lemma_same_frame(a: Packet, b: Packet)
        requires
            a.wire() == b.wire(),
            a.spec_addr() == b.spec_addr(),
        ensures
            a == b,
    {
        assert(a.buffer =~= b.buffer);
    }

    /// What a frame taken from a buffer holds, and when there is one.
    pub proof fn lemma_from_bytes(addr: u8, bytes: [u8; FRAME_SIZE])
        ensures
            Self::spec_from_bytes(addr, bytes) is Some <==> Self::well_formed(bytes@),
            Self::spec_from_bytes(addr, bytes) matches Some(p) ==> p.wf() && p.wire() == bytes@
                && p.spec_addr() == addr && p.spec_bytes() == bytes,
    {
    }

    /// A frame's bytes are its wire, and taking them as a frame again on the
    /// same address gives the frame back.
    pub proof fn lemma_bytes_round_trip(p: Packet)
        requires
            p.wf(),
        ensures
            p.spec_bytes()@ == p.wire(),
            Self::spec_from_bytes(p.spec_addr(), p.spec_bytes()) == Some(p),
    {
    }

    /// A frame with no payload in which every byte holds the header overhead.
    pub fn default() -> (packet: Packet)
        ensures
            packet.wf(),
            packet.spec_addr() == 0,
            packet.wire() == Seq::new(FRAME_SIZE as nat, |i: int| OVERHEAD),
            packet@.payload.len() == 0,
    {
        let packet = Packet { addr: 0, buffer: [OVERHEAD; FRAME_SIZE] };
        packet
    }

    /// Whether the frame carries no payload.
    pub fn is_empty(&self) -> (empty: bool)
        ensures
            empty == (self@.payload.len() == 0),
    {
        self.len() == 0
    }

    /// The length of the payload in bytes.
    #[verifier::when_used_as_spec(spec_len_usize)]
    pub fn len(&self) -> (len: usize)
        ensures
            len == self@.payload.len(),
            len == self.spec_len(),
            len <= BUFFER_SIZE,
    {
        proof {
            use_type_invariant(self);
        }
        (self.buffer[0] - OVERHEAD) as usize
    }

    /// The length of the payload as the machine counts it.
    pub open spec fn spec_len_usize(&self) -> usize {
        self.spec_len() as usize
    }

    /// Declares a payload of `len` bytes. The bytes themselves stay as they
    /// are, so a longer declaration uncovers what the buffer already held.
    pub fn set_len(&mut self, len: usize)
        requires
            len <= BUFFER_SIZE,
        ensures
            final(self).wf(),
            final(self).wire() == old(self).wire().update(0, (len + OVERHEAD) as u8),
            final(self).spec_addr() == old(self).spec_addr(),
            final(self)@.payload.len() == len,
    {
        proof {
            use_type_invariant(&*self);
        }
        self.buffer[0] = OVERHEAD + len as u8;
    }

    /// The sequence id.
    pub fn id(&self) -> (id: u8)
        ensures
            id == self@.id,
    {
        self.buffer[1]
    }

    /// Gives the frame the sequence id `id`.
    pub fn set_id(&mut self, id: u8)
        ensures
            *final(self) == old(self).spec_set_id(id),
            final(self).wf(),
            final(self).wire() == old(self).wire().update(1, id),
            final(self)@ == (PacketView { id, ..old(self)@ }),
    {
        proof {
            use_type_invariant(&*self);
        }
        self.buffer[1] = id;
        assert(self@.payload =~= old(self)@.payload);
    }

    /// The kind of this frame, or the type byte where it names none.
    pub fn packet_type(&self) -> (kind: Result<PacketType, FrameDecodeError>)
        ensures
            kind == PacketType::spec_from_byte(self@.type_byte),
    {
        PacketType::from_byte(self.buffer[2])
    }

    /// Makes the frame one of kind `packet_type`.
    pub fn set_type(&mut self, packet_type: PacketType)
        ensures
            *final(self) == old(self).spec_set_type(packet_type),
            final(self).wf(),
            final(self).wire() == old(self).wire().update(2, packet_type.spec_to_byte()),
            final(self)@ == (PacketView { type_byte: packet_type.spec_to_byte(), ..old(self)@ }),
    {
        proof {
            use_type_invariant(&*self);
        }
        self.buffer[2] = packet_type.to_byte();
        assert(self@.payload =~= old(self)@.payload);
    }

    /// The logical address on which the frame was matched.
    pub fn addr(&self) -> (addr: u8)
        ensures
            addr == self@.addr,
    {
        self.addr
    }

    /// Notes the logical address on which the frame was matched.
    pub fn set_addr(&mut self, addr: u8)
        ensures
            final(self).wf(),
            final(self).wire() == old(self).wire(),
            final(self)@ == (PacketView { addr, ..old(self)@ }),
    {
        proof {
            use_type_invariant(&*self);
        }
        self.addr = addr;
    }

    /// Copies `src` into the payload and declares its length. A slice longer
    /// than the capacity is refused and the frame stays as it was.
    pub fn copy_from_slice(&mut self, src: &[u8]) -> (copied: Result<(), PayloadTooLong>)
        ensures
            final(self).wf(),
            src@.len() > BUFFER_SIZE ==> copied == Err::<(), PayloadTooLong>(
                PayloadTooLong { len: src@.len() as usize },
            ) && *final(self) == *old(self),
            src@.len() <= BUFFER_SIZE ==> copied is Ok && final(self).wire() == Self::with_payload(
                old(self).wire(),
                src@,
            ) && final(self)@ == (PacketView { payload: src@, ..old(self)@ }),
    {
        proof {
            use_type_invariant(&*self);
        }
        let n = src.len();
        if n > BUFFER_SIZE {
            return Err(PayloadTooLong { len: n });
        }
        let mut i: usize = 0;
        while i < n
            invariant
                n == src@.len(),
                n <= BUFFER_SIZE,
                i <= n,
                self.spec_addr() == old(self).spec_addr(),
                self.wf(),
                forall|k: int| 0 <= k < 3 ==> self.wire()[k] == old(self).wire()[k],
                forall|k: int| 3 <= k < 3 + i ==> self.wire()[k] == src@[k - 3],
                forall|k: int| 3 + i <= k < FRAME_SIZE ==> self.wire()[k] == old(self).wire()[k],
            decreases n - i,
        {
            self.buffer[META_SIZE + i] = src[i];
            i += 1;
        }
        self.buffer[0] = OVERHEAD + n as u8;
        assert(self@.payload =~= src@);
        Ok(())
    }

    /// The wire bytes after `payload` has been copied in: the declared
    /// length follows the payload, the payload sits behind the header, and
    /// every other byte stays.
    pub open spec fn with_payload(wire: Seq<u8>, payload: Seq<u8>) -> Seq<u8> {
        Seq::new(
            wire.len(),
            |i: int|
                if i == 0 {
                    (payload.len() + OVERHEAD) as u8
                } else if 3 <= i < 3 + payload.len() {
                    payload[i - 3]
                } else {
                    wire[i]
                },
        )
    }

    /// The payload: the declared number of bytes behind the header, no more.
    pub fn payload(&self) -> (bytes: &[u8])
        ensures
            bytes@ == self@.payload,
    {
        proof {
            use_type_invariant(self);
        }
        let len = self.len();
        vstd::slice::slice_subrange(self.buffer.as_slice(), META_SIZE, META_SIZE + len)
    }

    /// Overwrites one byte of the payload.
    pub fn set_byte(&mut self, index: usize, byte: u8)
        requires
            index < old(self)@.payload.len(),
        ensures
            final(self).wf(),
            final(self).wire() == old(self).wire().update(3 + index, byte),
            final(self)@ == (PacketView {
                payload: old(self)@.payload.update(index as int, byte),
                ..old(self)@
            }),
    {
        proof {
            use_type_invariant(&*self);
        }
        self.buffer[META_SIZE + index] = byte;
        assert(self@.payload =~= old(self)@.payload.update(index as int, byte));
    }

    /// The whole frame as it goes over the air.
    pub fn as_bytes(&self) -> (bytes: [u8; FRAME_SIZE])
        ensures
            bytes == self.spec_bytes(),
            bytes@ == self.wire(),
    {
        self.buffer
    }

    /// Takes a received buffer as a frame, provided its declared length
    /// covers the header and fits the frame.
    pub fn from_bytes(addr: u8, bytes: [u8; FRAME_SIZE]) -> (packet: Option<Packet>)
        ensures
            packet == Self::spec_from_bytes(addr, bytes),
            packet is Some <==> Self::well_formed(bytes@),
            packet matches Some(p) ==> p.wf() && p.wire() == bytes@ && p.spec_addr() == addr,
    {
        if OVERHEAD <= bytes[0] && bytes[0] <= MAX_DECLARED {
            Some(Packet { addr, buffer: bytes })
        } else {
            None
        }
    }

    /// Whether 35 bytes hold a declared length that a frame can have.
    pub open spec fn well_formed(wire: Seq<u8>) -> bool {
        &&& wire.len() == FRAME_SIZE
        &&& OVERHEAD <= wire[0] <= MAX_DECLARED
    }
}

impl core::ops::Deref for Packet {
    type Target = [u8];

    fn deref(&self) -> (bytes: &[u8])
        ensures
            bytes@ == self@.payload,
    {
        self.payload()
    }
}

} // verus!
