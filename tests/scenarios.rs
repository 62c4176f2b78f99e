use disasm8086::{disassemble, DecodeError};

fn listing(bytes: &[u8]) -> String {
    disassemble(bytes).expect("decodes")
}

#[test]
fn mov_register_to_register() {
    assert_eq!(listing(&[0b10001001, 0b11011000]), "bits 16\nmov ax, bx\n");
}

#[test]
fn mov_immediate_to_byte_register() {
    assert_eq!(listing(&[0b10110001, 0b00001000]), "bits 16\nmov cl, 8\n");
}

#[test]
fn jne_to_itself_declares_a_label() {
    assert_eq!(
        listing(&[0b01110101, 0b11111110]),
        "bits 16\nlabel0:\njne label0 ; -2\n"
    );
}

#[test]
fn lock_prefix_with_add() {
    assert_eq!(
        listing(&[0b11110000, 0b00000001, 0b11000011]),
        "bits 16\nlock add bx, ax\n"
    );
}

#[test]
fn lock_swaps_operands_of_register_destination_form() {
    assert_eq!(listing(&[0x03, 0xC3]), "bits 16\nadd ax, bx\n");
    assert_eq!(listing(&[0xF0, 0x03, 0xC3]), "bits 16\nlock add bx, ax\n");
}

#[test]
fn lone_modrm_opcode_is_truncated() {
    assert_eq!(disassemble(&[0b10001001]), Err(DecodeError::TruncatedStream));
}

#[test]
fn empty_stream_is_only_the_directive() {
    assert_eq!(listing(&[]), "bits 16\n");
}
