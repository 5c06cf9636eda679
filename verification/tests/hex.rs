use serial_monitor::hex::{decode_hex, encode_hex};

#[test]
fn encode_two_bytes() {
    assert_eq!(encode_hex(&[0xDE, 0xAD]), b"DE AD ".to_vec());
}

#[test]
fn round_trip_display_and_input() {
    let bytes = [0xDE, 0xAD];
    let shown = encode_hex(&bytes);
    assert_eq!(decode_hex(&shown), bytes.to_vec());
}

#[test]
fn round_trip_all_byte_values() {
    let bytes: Vec<u8> = (0..=255).collect();
    assert_eq!(decode_hex(&encode_hex(&bytes)), bytes);
}

#[test]
fn odd_trailing_character_dropped() {
    assert_eq!(decode_hex(b"DEA"), vec![0xDE]);
    assert_eq!(decode_hex(b"F"), Vec::<u8>::new());
}

#[test]
fn malformed_pair_skipped() {
    assert_eq!(decode_hex(b"DE XY AD"), vec![0xDE, 0xAD]);
    assert_eq!(decode_hex(b"+F"), Vec::<u8>::new());
}

#[test]
fn lowercase_accepted() {
    assert_eq!(decode_hex(b"de ad"), vec![0xDE, 0xAD]);
}

#[test]
fn spaces_stripped_before_pairing() {
    // pairing happens after the spaces are gone
    assert_eq!(decode_hex(b"D EAD"), vec![0xDE, 0xAD]);
}

#[test]
fn empty_input() {
    assert_eq!(encode_hex(&[]), Vec::<u8>::new());
    assert_eq!(decode_hex(b""), Vec::<u8>::new());
}
