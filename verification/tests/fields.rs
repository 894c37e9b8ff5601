use chip8_emulator::instruction::{decode, join_bytes, Fields};

#[test]
fn decode_splits_a_word_into_its_fields() {
    let fields = decode(0xD12A);
    assert_eq!(fields, Fields { class: 0xD, x: 0x1, y: 0x2, n: 0xA, nn: 0x2A, nnn: 0x12A });
}

#[test]
fn decode_of_extreme_words() {
    assert_eq!(decode(0x0000), Fields { class: 0, x: 0, y: 0, n: 0, nn: 0, nnn: 0 });
    assert_eq!(decode(0xFFFF), Fields { class: 0xF, x: 0xF, y: 0xF, n: 0xF, nn: 0xFF, nnn: 0xFFF });
}

#[test]
fn join_bytes_puts_the_first_byte_high() {
    assert_eq!(join_bytes(0x12, 0x34), 0x1234);
    assert_eq!(join_bytes(0x00, 0xFF), 0x00FF);
    assert_eq!(join_bytes(0xFF, 0x00), 0xFF00);
}
