use bruh78::radio::addresses::{le_word, DONGLE, LEFT, RIGHT};
use bruh78::radio::{Addresses, Node, RadioConfig, TimerConfig};
use bruh78::{DONGLE_ADDRESS, DONGLE_PREFIX, KEYBOARD_ADDRESS, LEFT_PREFIX, RIGHT_PREFIX};

#[test]
fn default_addresses_name_the_three_nodes() {
    let addresses = Addresses::default();
    assert_eq!(addresses.base, [DONGLE_ADDRESS, KEYBOARD_ADDRESS]);
    assert_eq!(addresses.prefix[0], [DONGLE_PREFIX, LEFT_PREFIX, RIGHT_PREFIX, 0]);
    assert_eq!(addresses.prefix[1], [0, 0, 0, 0]);
    assert_eq!(addresses.endpoint(DONGLE), (DONGLE_ADDRESS, DONGLE_PREFIX));
    assert_eq!(addresses.endpoint(LEFT), (KEYBOARD_ADDRESS, LEFT_PREFIX));
    assert_eq!(addresses.endpoint(RIGHT), (KEYBOARD_ADDRESS, RIGHT_PREFIX));
    assert_ne!(addresses.endpoint(DONGLE), addresses.endpoint(LEFT));
    assert_ne!(addresses.endpoint(DONGLE), addresses.endpoint(RIGHT));
    assert_ne!(addresses.endpoint(LEFT), addresses.endpoint(RIGHT));
}

#[test]
fn endpoints_four_to_seven_use_the_second_prefix_word() {
    let addresses = Addresses { base: [1, 2], prefix: [[10, 11, 12, 13], [14, 15, 16, 17]] };
    assert_eq!(addresses.endpoint(0), (1, 10));
    assert_eq!(addresses.endpoint(3), (2, 13));
    assert_eq!(addresses.endpoint(4), (2, 14));
    assert_eq!(addresses.endpoint(7), (2, 17));
}

#[test]
fn le_word_puts_the_first_byte_lowest() {
    assert_eq!(le_word([0x78, 0x56, 0x34, 0x12]), 0x1234_5678);
    assert_eq!(le_word([0, 0, 0, 0]), 0);
    assert_eq!(le_word([0xFF, 0xFF, 0xFF, 0xFF]), 0xFFFF_FFFF);
    assert_eq!(le_word([1, 0, 0, 0]), 1);
    assert_eq!(le_word([0, 0, 0, 1]), 0x0100_0000);
    assert_eq!(le_word([9, 8, 7, 6]), u32::from_le_bytes([9, 8, 7, 6]));
}

#[test]
fn radio_configuration_is_fixed_but_for_the_addresses() {
    let addresses = Addresses::default();
    let config = RadioConfig::new(&addresses);
    assert_eq!(config.data_rate_kbit, 1000);
    assert_eq!(config.length_field_bits, 8);
    assert_eq!(config.max_len, 35);
    assert_eq!(config.base_address_len, 4);
    assert!(config.little_endian);
    assert_eq!(config.base0, DONGLE_ADDRESS);
    assert_eq!(config.base1, KEYBOARD_ADDRESS);
    assert_eq!(config.prefix0, u32::from_le_bytes(addresses.prefix[0]));
    assert_eq!(config.prefix1, 0);
    assert_eq!(config.crc_len, 2);
    assert!(config.crc_skip_address);
    assert_eq!(config.crc_poly, 0x1_1021);
    assert_eq!(config.crc_init, 0xFFFF);
    assert!(config.fast_ramp_up);
    assert_eq!(config.frequency, 80);
}

#[test]
fn timer_configuration_is_fixed() {
    assert_eq!(TimerConfig::new(), TimerConfig { bit_width: 32, prescaler: 4, compare: 300 });
}

#[test]
fn nodes_listen_to_their_peers() {
    assert_eq!(Node::Dongle.tx_address(), DONGLE);
    assert_eq!(Node::Left.tx_address(), LEFT);
    assert_eq!(Node::Right.tx_address(), RIGHT);
    assert_eq!(Node::Dongle.rx_addresses(), 0b110);
    assert_eq!(Node::Left.rx_addresses(), 0b001);
    assert_eq!(Node::Right.rx_addresses(), 0b001);
    let nodes = [Node::Dongle, Node::Left, Node::Right];
    for listener in nodes {
        for sender in nodes {
            let hears = (listener.rx_addresses() >> sender.tx_address()) & 1 == 1;
            assert_eq!(hears, (listener == Node::Dongle) != (sender == Node::Dongle));
        }
    }
}
