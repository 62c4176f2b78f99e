use disasm8086::{disassemble, DecodeError};

fn listing(bytes: &[u8]) -> String {
    disassemble(bytes).expect("decodes")
}

#[test]
fn zero_displacement_is_omitted() {
    assert_eq!(listing(&[0x8B, 0x47, 0x00]), "bits 16\nmov ax, [bx]\n");
    assert_eq!(listing(&[0x8B, 0x00]), "bits 16\nmov ax, [bx + si]\n");
}

#[test]
fn positive_displacement_uses_plus() {
    assert_eq!(listing(&[0x8B, 0x47, 0x05]), "bits 16\nmov ax, [bx + 5]\n");
    assert_eq!(listing(&[0x8B, 0x87, 0x10, 0x27]), "bits 16\nmov ax, [bx + 10000]\n");
}

#[test]
fn negative_displacement_uses_minus_and_absolute_value() {
    assert_eq!(listing(&[0x8B, 0x47, 0xFB]), "bits 16\nmov ax, [bx - 5]\n");
    assert_eq!(listing(&[0x88, 0x92, 0x00, 0x80]), "bits 16\nmov [bp + si - 32768], dl\n");
}

#[test]
fn direct_address() {
    assert_eq!(listing(&[0x8B, 0x06, 0x34, 0x12]), "bits 16\nmov ax, [4660]\n");
    assert_eq!(listing(&[0x8B, 0x2E, 0x05, 0x00]), "bits 16\nmov bp, [5]\n");
}

#[test]
fn lea_les_lds_use_register_destination() {
    assert_eq!(listing(&[0x8D, 0x81, 0x8C, 0x05]), "bits 16\nlea ax, [bx + di + 1420]\n");
    assert_eq!(listing(&[0xC4, 0x07]), "bits 16\nles ax, [bx]\n");
    assert_eq!(listing(&[0xC5, 0x1E, 0x01, 0x00]), "bits 16\nlds bx, [1]\n");
}

#[test]
fn test_and_xchg_register_memory() {
    assert_eq!(listing(&[0x85, 0xCB]), "bits 16\ntest bx, cx\n");
    assert_eq!(listing(&[0x86, 0xC4]), "bits 16\nxchg al, ah\n");
}

#[test]
fn immediate_to_register_memory() {
    assert_eq!(listing(&[0x83, 0xC0, 0xFF]), "bits 16\nadd ax, word -1\n");
    assert_eq!(listing(&[0x81, 0xEB, 0x10, 0x27]), "bits 16\nsub bx, word 10000\n");
    assert_eq!(listing(&[0x80, 0x3F, 0x22]), "bits 16\ncmp [bx], byte 34\n");
    assert_eq!(listing(&[0xC7, 0x06, 0x01, 0x00, 0xFF, 0xFF]), "bits 16\nmov [1], word -1\n");
}

#[test]
fn shifts_take_one_or_cl() {
    assert_eq!(listing(&[0xD1, 0xE0]), "bits 16\nshl word ax, 1\n");
    assert_eq!(listing(&[0xD2, 0x0F]), "bits 16\nror byte [bx], cl\n");
}

#[test]
fn unary_group_has_no_data_except_test() {
    assert_eq!(listing(&[0xF7, 0xD8]), "bits 16\nneg word ax\n");
    assert_eq!(listing(&[0xF6, 0x27]), "bits 16\nmul byte [bx]\n");
    assert_eq!(listing(&[0xF6, 0xC3, 0x01]), "bits 16\ntest bl, byte 1\n");
    assert_eq!(listing(&[0xF7, 0xC3, 0x34, 0x12]), "bits 16\ntest bx, word 4660\n");
}

#[test]
fn inc_push_call_jmp_group() {
    assert_eq!(listing(&[0xFE, 0x07]), "bits 16\ninc byte [bx]\n");
    assert_eq!(listing(&[0xFF, 0x36, 0x02, 0x00]), "bits 16\npush word [2]\n");
    assert_eq!(listing(&[0xFF, 0x1F]), "bits 16\ncall word far [bx]\n");
    assert_eq!(listing(&[0xFF, 0x27]), "bits 16\njmp word [bx]\n");
    assert_eq!(listing(&[0x8F, 0x07]), "bits 16\npop word [bx]\n");
}

#[test]
fn missing_displacement_or_data_is_truncated() {
    assert_eq!(disassemble(&[0x8B, 0x47]), Err(DecodeError::TruncatedStream));
    assert_eq!(disassemble(&[0x8B, 0x87, 0x10]), Err(DecodeError::TruncatedStream));
    assert_eq!(disassemble(&[0x81, 0xEB, 0x10]), Err(DecodeError::TruncatedStream));
    assert_eq!(disassemble(&[0xB8, 0x01]), Err(DecodeError::TruncatedStream));
}
