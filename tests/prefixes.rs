use disasm8086::{disassemble, DecodeError};

fn listing(bytes: &[u8]) -> String {
    disassemble(bytes).expect("decodes")
}

#[test]
fn segment_override_applies_to_next_memory_operand() {
    assert_eq!(listing(&[0x26, 0x89, 0x07]), "bits 16\nmov es:[bx], ax\n");
    assert_eq!(listing(&[0x3E, 0xC6, 0x07, 0x05]), "bits 16\nmov ds:[bx], byte 5\n");
}

#[test]
fn segment_override_does_not_leak_past_one_instruction() {
    assert_eq!(
        listing(&[0x26, 0x89, 0x07, 0x89, 0x07]),
        "bits 16\nmov es:[bx], ax\nmov [bx], ax\n"
    );
    // an instruction without a memory operand still uses up the prefix, written as a word
    assert_eq!(
        listing(&[0x2E, 0x90, 0x89, 0x07]),
        "bits 16\ncs xchg ax, ax\nmov [bx], ax\n"
    );
}

#[test]
fn lock_does_not_leak_past_one_instruction() {
    assert_eq!(
        listing(&[0xF0, 0x03, 0xC3, 0x03, 0xC3]),
        "bits 16\nlock add bx, ax\nadd ax, bx\n"
    );
}

#[test]
fn repeated_lock_is_kept() {
    assert_eq!(listing(&[0xF0, 0xF0, 0x03, 0xC3]), "bits 16\nlock lock add bx, ax\n");
}

#[test]
fn prefixes_at_end_are_kept() {
    assert_eq!(listing(&[0x90, 0x26]), "bits 16\nxchg ax, ax\nes\n");
    assert_eq!(listing(&[0x90, 0xF0]), "bits 16\nxchg ax, ax\nlock \n");
}

#[test]
fn segment_override_on_accumulator_address() {
    assert_eq!(listing(&[0x26, 0xA1, 0x34, 0x12]), "bits 16\nmov ax, es:[4660]\n");
    assert_eq!(listing(&[0x36, 0xA2, 0x10, 0x00]), "bits 16\nmov ss:[16], al\n");
}

#[test]
fn segment_override_with_register_operand_is_a_word() {
    assert_eq!(listing(&[0x26, 0x89, 0xD8]), "bits 16\nes mov ax, bx\n");
    assert_eq!(listing(&[0x26, 0x04, 0x05]), "bits 16\nes add al, 5\n");
}

#[test]
fn replaced_segment_override_is_kept() {
    assert_eq!(listing(&[0x26, 0x2E, 0x89, 0x07]), "bits 16\nes mov cs:[bx], ax\n");
}

#[test]
fn lock_and_segment_override_together() {
    assert_eq!(listing(&[0xF0, 0x26, 0x01, 0x07]), "bits 16\nlock add es:[bx], ax\n");
}

#[test]
fn lock_belongs_to_the_instruction_it_prefixes() {
    // a branch to the LOCK byte labels the whole locked instruction
    assert_eq!(
        listing(&[0xF0, 0x01, 0xC3, 0x74, 0xFB]),
        "bits 16\nlabel0:\nlock add bx, ax\nje label0 ; -5\n"
    );
    // a branch past the LOCK byte lands inside that instruction
    assert_eq!(
        listing(&[0xF0, 0x01, 0xC3, 0x74, 0xFC]),
        "bits 16\nlock add bx, ax\nje 1 ; -4\n"
    );
}

#[test]
fn rep_string_operations() {
    assert_eq!(listing(&[0xF3, 0xA4]), "bits 16\nrep movsb\n");
    assert_eq!(listing(&[0xF3, 0xA7]), "bits 16\nrep cmpsw\n");
    assert_eq!(listing(&[0xF3, 0xAB]), "bits 16\nrep stosw\n");
    assert_eq!(listing(&[0xF3, 0xAC]), "bits 16\nrep lodsb\n");
    assert_eq!(listing(&[0xF3, 0xAF]), "bits 16\nrep scasw\n");
}

#[test]
fn rep_with_no_string_operation_is_invalid() {
    assert_eq!(disassemble(&[0xF3, 0xA0]), Err(DecodeError::InvalidEncoding));
    assert_eq!(disassemble(&[0xF3]), Err(DecodeError::TruncatedStream));
}
