use chip8::opcode::Opcode;

#[test]
fn fields_of_a_draw_instruction() {
    let op = Opcode(0xD123);
    assert_eq!(op.x(), 1);
    assert_eq!(op.y(), 2);
    assert_eq!(op.n(), 3);
    assert_eq!(op.nn(), 0x23);
    assert_eq!(op.nnn(), 0x123);
}

#[test]
fn fields_of_the_largest_word() {
    let op = Opcode(0xFFFF);
    assert_eq!(op.x(), 0xF);
    assert_eq!(op.y(), 0xF);
    assert_eq!(op.n(), 0xF);
    assert_eq!(op.nn(), 0xFF);
    assert_eq!(op.nnn(), 0xFFF);
}

#[test]
fn fields_of_the_zero_word() {
    let op = Opcode(0x0000);
    assert_eq!(op.x(), 0);
    assert_eq!(op.y(), 0);
    assert_eq!(op.n(), 0);
    assert_eq!(op.nn(), 0);
    assert_eq!(op.nnn(), 0);
}

#[test]
fn fields_agree_with_shift_and_mask_for_every_word() {
    for word in 0..=0xFFFFu16 {
        let op = Opcode(word);
        assert_eq!(op.x(), ((word >> 8) & 0xF) as usize);
        assert_eq!(op.y(), ((word >> 4) & 0xF) as usize);
        assert_eq!(op.n(), (word & 0xF) as u8);
        assert_eq!(op.nn(), (word & 0xFF) as u8);
        assert_eq!(op.nnn(), word & 0xFFF);
    }
}
