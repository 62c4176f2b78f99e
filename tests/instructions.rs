use disasm8086::{disassemble, DecodeError};

fn listing(bytes: &[u8]) -> String {
    disassemble(bytes).expect("decodes")
}

#[test]
fn mov_immediate_values() {
    assert_eq!(listing(&[0xB8, 0xFF, 0xFF]), "bits 16\nmov ax, -1\n");
    assert_eq!(listing(&[0xB8, 0x00, 0x80]), "bits 16\nmov ax, -32768\n");
    assert_eq!(listing(&[0xBA, 0x6C, 0x0F]), "bits 16\nmov dx, 3948\n");
    assert_eq!(listing(&[0xB4, 0xF4]), "bits 16\nmov ah, -12\n");
}

#[test]
fn accumulator_forms() {
    assert_eq!(listing(&[0x04, 0x05]), "bits 16\nadd al, 5\n");
    assert_eq!(listing(&[0x2D, 0xE8, 0x03]), "bits 16\nsub ax, 1000\n");
    assert_eq!(listing(&[0xA1, 0x34, 0x12]), "bits 16\nmov ax, [4660]\n");
    assert_eq!(listing(&[0xA2, 0x10, 0x00]), "bits 16\nmov [16], al\n");
    assert_eq!(listing(&[0xA8, 0x01]), "bits 16\ntest al, 1\n");
    assert_eq!(listing(&[0xE4, 0xC8]), "bits 16\nin al, 200\n");
    assert_eq!(listing(&[0xE7, 0x10]), "bits 16\nout 16, ax\n");
}

#[test]
fn single_byte_register_forms() {
    assert_eq!(listing(&[0x50]), "bits 16\npush ax\n");
    assert_eq!(listing(&[0x5B]), "bits 16\npop bx\n");
    assert_eq!(listing(&[0x41]), "bits 16\ninc cx\n");
    assert_eq!(listing(&[0x4F]), "bits 16\ndec di\n");
    assert_eq!(listing(&[0x1E]), "bits 16\npush ds\n");
    assert_eq!(listing(&[0x07]), "bits 16\npop es\n");
    assert_eq!(listing(&[0x93]), "bits 16\nxchg ax, bx\n");
    assert_eq!(listing(&[0xEC]), "bits 16\nin al, dx\n");
    assert_eq!(listing(&[0xEF]), "bits 16\nout dx, ax\n");
}

#[test]
fn returns_and_interrupts() {
    assert_eq!(listing(&[0xC3]), "bits 16\nret\n");
    assert_eq!(listing(&[0xC2, 0x04, 0x00]), "bits 16\nret 4\n");
    assert_eq!(listing(&[0xCA, 0xFC, 0xFF]), "bits 16\nretf -4\n");
    assert_eq!(listing(&[0xCD, 0x21]), "bits 16\nint 33\n");
    assert_eq!(listing(&[0xCD, 0xFF]), "bits 16\nint 255\n");
    assert_eq!(listing(&[0xCC]), "bits 16\nint3\n");
}

#[test]
fn fixed_one_byte_instructions() {
    assert_eq!(
        listing(&[0xD7, 0x9F, 0x9E, 0x9C, 0x9D, 0x37, 0x27, 0x3F, 0x2F, 0x98, 0x99]),
        "bits 16\nxlat\nlahf\nsahf\npushf\npopf\naaa\ndaa\naas\ndas\ncbw\ncwd\n"
    );
    assert_eq!(
        listing(&[0xCB, 0xCE, 0xCF, 0xF8, 0xF5, 0xF9, 0xFC, 0xFD, 0xFA, 0xFB, 0xF4, 0x9B]),
        "bits 16\nretf\ninto\niret\nclc\ncmc\nstc\ncld\nstd\ncli\nsti\nhlt\nwait\n"
    );
}

#[test]
fn ascii_adjust_needs_fixed_second_byte() {
    assert_eq!(listing(&[0xD4, 0x0A]), "bits 16\naam\n");
    assert_eq!(listing(&[0xD5, 0x0A]), "bits 16\naad\n");
    assert_eq!(disassemble(&[0xD4, 0x0B]), Err(DecodeError::InvalidEncoding));
    assert_eq!(disassemble(&[0xD5]), Err(DecodeError::TruncatedStream));
}

#[test]
fn unknown_byte_becomes_a_comment() {
    assert_eq!(listing(&[0x60]), "bits 16\n;  1100000\n");
    assert_eq!(listing(&[0xD6]), "bits 16\n; 11010110\n");
    assert_eq!(listing(&[0xF1, 0x90]), "bits 16\n; 11110001\nxchg ax, ax\n");
}

#[test]
fn far_call_and_jump_are_absolute() {
    assert_eq!(listing(&[0x9A, 0x34, 0x12, 0x00, 0x10]), "bits 16\ncall 4096:4660\n");
    assert_eq!(listing(&[0xEA, 0x00, 0x00, 0xFF, 0xFF]), "bits 16\njmp -1:0\n");
    assert_eq!(disassemble(&[0x9A, 0x34, 0x12, 0x00]), Err(DecodeError::TruncatedStream));
}
