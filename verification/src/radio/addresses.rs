//! Link addressing and the fixed radio configuration.
//!
//! The radio composes a logical address from a 32-bit base and a one-byte
//! prefix. Logical address 0 takes the first base; addresses 1 to 7 share the
//! second. The prefixes of addresses 0 to 3 sit in the first prefix word, those
//! of addresses 4 to 7 in the second.

use vstd::prelude::*;

use crate::{DONGLE_ADDRESS, DONGLE_PREFIX, KEYBOARD_ADDRESS, LEFT_PREFIX, RIGHT_PREFIX};

verus! {

/// Number of logical addresses that the radio can match.
pub const ADDRESS_SLOTS: usize = 8;

/// Logical address of the dongle.
pub const DONGLE: u8 = 0;

/// Logical address of the left half.
pub const LEFT: u8 = 1;

/// Logical address of the right half.
pub const RIGHT: u8 = 2;

/// The three nodes of the keyboard.
#[derive(Clone, Copy, PartialEq, Eq, Structural, Debug)]
pub enum Node {
    Dongle,
    Left,
    Right,
}

impl Node {
    /// The logical address that this node transmits on.
    pub open spec fn spec_tx_address(self) -> u8 {
        match self {
            Node::Dongle => DONGLE,
            Node::Left => LEFT,
            Node::Right => RIGHT,
        }
    }

    /// The logical addresses that this node listens on, one bit each: the
    /// dongle hears the two halves, a half hears the dongle.
    pub open spec fn spec_rx_addresses(self) -> u32 {
        match self {
            Node::Dongle => 0b110,
            Node::Left => 0b001,
            Node::Right => 0b001,
        }
    }

    /// Whether a node that listens on `rx_addresses` hears what is sent on
    /// `tx_address`.
    pub open spec fn spec_hears(rx_addresses: u32, tx_address: u8) -> bool {
        (rx_addresses >> (tx_address as u32)) & 1 == 1
    }

    /// The logical address that this node transmits on.
    #[verifier::when_used_as_spec(spec_tx_address)]
    pub fn tx_address(self) -> (tx_address: u8)
        ensures
            tx_address == self.spec_tx_address(),
            tx_address < ADDRESS_SLOTS,
    {
        match self {
            Node::Dongle => DONGLE,
            Node::Left => LEFT,
            Node::Right => RIGHT,
        }
    }

    /// The logical addresses that this node listens on, one bit each.
    #[verifier::when_used_as_spec(spec_rx_addresses)]
    pub fn rx_addresses(self) -> (rx_addresses: u32)
        ensures
            rx_addresses == self.spec_rx_addresses(),
    {
        match self {
            Node::Dongle => 0b110,
            Node::Left => 0b001,
            Node::Right => 0b001,
        }
    }

    /// The dongle hears both halves, each half hears the dongle, the halves
    /// do not hear each other, and no node hears itself.
    pub proof fn lemma_who_hears_whom(listener: Node, sender: Node)
        ensures
            Self::spec_hears(listener.spec_rx_addresses(), sender.spec_tx_address()) <==> (
            listener is Dongle) != (sender is Dongle),
    {
        assert((0b110u32 >> 0u32) & 1 == 0) by (bit_vector);
        assert((0b110u32 >> 1u32) & 1 == 1) by (bit_vector);
        assert((0b110u32 >> 2u32) & 1 == 1) by (bit_vector);
        assert((0b001u32 >> 0u32) & 1 == 1) by (bit_vector);
        assert((0b001u32 >> 1u32) & 1 == 0) by (bit_vector);
        assert((0b001u32 >> 2u32) & 1 == 0) by (bit_vector);
    }
}

/// The base addresses and prefixes that the radio composes its logical
/// addresses from.
#[derive(Clone, Copy, Debug)]
pub struct Addresses {
    pub base: [u32; 2],
    pub prefix: [[u8; 4]; 2],
}

impl Addresses {
    /// The addresses of the three nodes: the dongle on the first base, the
    /// two halves on the second.
    pub open spec fn spec_default() -> Addresses {
        Addresses {
            base: [DONGLE_ADDRESS, KEYBOARD_ADDRESS],
            prefix: [[DONGLE_PREFIX, LEFT_PREFIX, RIGHT_PREFIX, 0], [0, 0, 0, 0]],
        }
    }

    /// Base and prefix that make up logical address `logical`.
    pub open spec fn spec_endpoint(&self, logical: u8) -> (u32, u8)
        recommends
            logical < ADDRESS_SLOTS,
    {
        (
            if logical == 0 {
                self.base[0]
            } else {
                self.base[1]
            },
            self.prefix[logical as int / 4][logical as int % 4],
        )
    }

    /// Base and prefix that make up logical address `logical`.
    pub fn endpoint(&self, logical: u8) -> (endpoint: (u32, u8))
        requires
            logical < ADDRESS_SLOTS,
        ensures
            endpoint == self.spec_endpoint(logical),
    {
        let base = if logical == 0 {
            self.base[0]
        } else {
            self.base[1]
        };
        let word = (logical / 4) as usize;
        let lane = (logical % 4) as usize;
        (base, self.prefix[word][lane])
    }

    /// The default addresses name three different endpoints.
    pub proof fn lemma_default_endpoints_distinct()
        ensures
            Self::spec_default().spec_endpoint(DONGLE) == (DONGLE_ADDRESS, DONGLE_PREFIX),
            Self::spec_default().spec_endpoint(LEFT) == (KEYBOARD_ADDRESS, LEFT_PREFIX),
            Self::spec_default().spec_endpoint(RIGHT) == (KEYBOARD_ADDRESS, RIGHT_PREFIX),
            Self::spec_default().spec_endpoint(DONGLE) != Self::spec_default().spec_endpoint(LEFT),
            Self::spec_default().spec_endpoint(DONGLE) != Self::spec_default().spec_endpoint(RIGHT),
            Self::spec_default().spec_endpoint(LEFT) != Self::spec_default().spec_endpoint(RIGHT),
    {
    }
}

impl Default for Addresses {
    fn default() -> (addresses: Addresses)
        ensures
            addresses == Addresses::spec_default(),
    {
        let mut res = Addresses { base: [0, 0], prefix: [[0, 0, 0, 0], [0, 0, 0, 0]] };
        res.base[0] = DONGLE_ADDRESS;
        res.base[1] = KEYBOARD_ADDRESS;
        res.prefix[0][0] = DONGLE_PREFIX;
        res.prefix[0][1] = LEFT_PREFIX;
        res.prefix[0][2] = RIGHT_PREFIX;
        assert(res.base =~= Addresses::spec_default().base);
        assert(res.prefix[0] =~= Addresses::spec_default().prefix[0]);
        assert(res.prefix =~= Addresses::spec_default().prefix);
        res
    }
}

/// The word that four bytes make when the first is the least significant.
pub open spec fn spec_le_word(bytes: [u8; 4]) -> u32 {
    (bytes[0] + bytes[1] * 0x100 + bytes[2] * 0x1_0000 + bytes[3] * 0x100_0000) as u32
}

/// Packs four prefix bytes into a prefix register, first byte lowest.
pub fn le_word(bytes: [u8; 4]) -> (word: u32)
    ensures
        word == spec_le_word(bytes),
{
    bytes[0] as u32 + bytes[1] as u32 * 0x100 + bytes[2] as u32 * 0x1_0000 + bytes[3] as u32
        * 0x100_0000
}

/// The register values that set the radio up for this link.
#[derive(Clone, Copy, PartialEq, Eq, Structural, Debug)]
pub struct RadioConfig {
    /// On-air data rate in kbit/s.
    pub data_rate_kbit: u32,
    /// Width of the on-air length field in bits.
    pub length_field_bits: u8,
    /// Largest frame that the radio moves, in bytes.
    pub max_len: u8,
    /// Number of base address bytes on air.
    pub base_address_len: u8,
    /// Whether multi-byte fields go out least significant bit first.
    pub little_endian: bool,
    pub base0: u32,
    pub base1: u32,
    pub prefix0: u32,
    pub prefix1: u32,
    /// Width of the checksum in bytes.
    pub crc_len: u8,
    /// Whether the address stays out of the checksum.
    pub crc_skip_address: bool,
    pub crc_poly: u32,
    pub crc_init: u32,
    /// Whether the radio uses its fast ramp-up.
    pub fast_ramp_up: bool,
    /// Channel index above 2400 MHz.
    pub frequency: u8,
}

impl RadioConfig {
    /// The configuration of the link for the given addresses: 1 Mbit, 8-bit
    /// length field, 4-byte base address, 35-byte frames, little-endian,
    /// CRC-16 with polynomial 0x11021 and initial value 0xFFFF over
    /// everything but the address, channel 80.
    pub open spec fn spec_new(addresses: Addresses) -> RadioConfig {
        RadioConfig {
            data_rate_kbit: 1000,
            length_field_bits: 8,
            max_len: 35,
            base_address_len: 4,
            little_endian: true,
            base0: addresses.base[0],
            base1: addresses.base[1],
            prefix0: spec_le_word(addresses.prefix[0]),
            prefix1: spec_le_word(addresses.prefix[1]),
            crc_len: 2,
            crc_skip_address: true,
            crc_poly: 0x1_1021,
            crc_init: 0xFFFF,
            fast_ramp_up: true,
            frequency: 80,
        }
    }

    pub fn new(addresses: &Addresses) -> (config: RadioConfig)
        ensures
            config == Self::spec_new(*addresses),
    {
        RadioConfig {
            data_rate_kbit: 1000,
            length_field_bits: 8,
            max_len: 35,
            base_address_len: 4,
            little_endian: true,
            base0: addresses.base[0],
            base1: addresses.base[1],
            prefix0: le_word(addresses.prefix[0]),
            prefix1: le_word(addresses.prefix[1]),
            crc_len: 2,
            crc_skip_address: true,
            crc_poly: 0x1_1021,
            crc_init: 0xFFFF,
            fast_ramp_up: true,
            frequency: 80,
        }
    }
}

/// The register values of the countdown timer that paces the ack window.
#[derive(Clone, Copy, PartialEq, Eq, Structural, Debug)]
pub struct TimerConfig {
    /// Width of the counter in bits.
    pub bit_width: u8,
    /// The timer counts at 16 MHz divided by two to this power.
    pub prescaler: u8,
    /// Count at which the ack window expires.
    pub compare: u32,
}

impl TimerConfig {
    /// A 32-bit timer at 1 MHz whose compare fires after 300 ticks.
    pub open spec fn spec_new() -> TimerConfig {
        TimerConfig { bit_width: 32, prescaler: 4, compare: 300 }
    }

    pub fn new() -> (config: TimerConfig)
        ensures
            config == Self::spec_new(),
    {
        TimerConfig { bit_width: 32, prescaler: 4, compare: 300 }
    }
}

} // verus!
