use disasm8086::{collect_labels, decode, disassemble};

fn listing(bytes: &[u8]) -> String {
    disassemble(bytes).expect("decodes")
}

#[test]
fn loop_to_itself() {
    assert_eq!(listing(&[0xE2, 0xFE]), "bits 16\nlabel0:\nloop label0 ; -2\n");
}

#[test]
fn forward_and_backward_branches_share_one_label() {
    assert_eq!(
        listing(&[0x75, 0x02, 0x74, 0x00, 0x90, 0xEB, 0xFD]),
        "bits 16\njne label0 ; 2\nje label0 ; 0\nlabel0:\nxchg ax, ax\njmp label0 ; -3\n"
    );
}

#[test]
fn distinct_targets_get_distinct_labels() {
    assert_eq!(
        listing(&[0x74, 0x02, 0x90, 0x90, 0x74, 0xFA]),
        "bits 16\nlabel1:\nje label0 ; 2\nxchg ax, ax\nxchg ax, ax\nlabel0:\nje label1 ; -6\n"
    );
}

#[test]
fn dangling_target_is_a_number() {
    assert_eq!(
        listing(&[0xEB, 0x01, 0xB8, 0x00, 0x00]),
        "bits 16\njmp 3 ; 1\nmov ax, 0\n"
    );
}

#[test]
fn dangling_target_still_uses_up_a_label_number() {
    assert_eq!(
        listing(&[0xEB, 0x01, 0xB8, 0x00, 0x00, 0x75, 0xFE]),
        "bits 16\njmp 3 ; 1\nmov ax, 0\nlabel1:\njne label1 ; -2\n"
    );
}

#[test]
fn target_before_the_stream_is_a_number() {
    assert_eq!(listing(&[0xEB, 0x80]), "bits 16\njmp -126 ; -128\n");
}

#[test]
fn near_call_and_jump() {
    assert_eq!(listing(&[0xE8, 0x00, 0x00]), "bits 16\ncall 3 ; 0\n");
    assert_eq!(
        listing(&[0x90, 0xE9, 0xFC, 0xFF]),
        "bits 16\nlabel0:\nxchg ax, ax\njmp label0 ; -4\n"
    );
}

#[test]
fn jump_name_tables() {
    assert_eq!(listing(&[0x7F, 0xFE]), "bits 16\nlabel0:\njnle label0 ; -2\n");
    assert_eq!(listing(&[0xE3, 0xFE]), "bits 16\nlabel0:\njcxz label0 ; -2\n");
    assert_eq!(listing(&[0xE0, 0xFE]), "bits 16\nlabel0:\nloopnz label0 ; -2\n");
}

#[test]
fn instruction_starts_follow_lengths() {
    let bytes = [0x26, 0x89, 0x07, 0xB8, 0x01, 0x00, 0x75, 0xF8, 0xF0, 0x90];
    let es = decode(&bytes).expect("decodes");
    let spans: Vec<(usize, usize)> = es.iter().map(|e| (e.start, e.len)).collect();
    assert_eq!(spans, vec![(0, 3), (3, 3), (6, 2), (8, 2)]);
    assert_eq!(es[2].target, Some(0));
}

#[test]
fn labels_in_first_seen_order() {
    let bytes = [0x74, 0x02, 0x90, 0x90, 0x74, 0xFA, 0xEB, 0xF8];
    let es = decode(&bytes).expect("decodes");
    assert_eq!(collect_labels(&es), vec![4, 0]);
}
