use chip8::op::Op;

#[test]
fn decode_cls_ret_sys() {
    assert_eq!(Op::decode(0x00E0), Op::CLS);
    assert_eq!(Op::decode(0x00EE), Op::RET);
    assert_eq!(Op::decode(0x0123), Op::SYS { addr: 0x123 });
    assert_eq!(Op::decode(0x0000), Op::SYS { addr: 0x000 });
}

#[test]
fn decode_jumps_and_calls() {
    assert_eq!(Op::decode(0x1ABC), Op::JP { addr: 0xABC });
    assert_eq!(Op::decode(0x2DEF), Op::CALL { addr: 0xDEF });
    assert_eq!(Op::decode(0xB123), Op::JPO { addr: 0x123 });
}

#[test]
fn decode_immediates() {
    assert_eq!(Op::decode(0x3A42), Op::SE { reg: 0xA, byte: 0x42 });
    assert_eq!(Op::decode(0x4B10), Op::SNE { reg: 0xB, byte: 0x10 });
    assert_eq!(Op::decode(0x6C99), Op::LD { reg: 0xC, byte: 0x99 });
    assert_eq!(Op::decode(0x7D01), Op::ADD { reg: 0xD, byte: 0x01 });
    assert_eq!(Op::decode(0xC2FF), Op::RND { reg: 0x2, byte: 0xFF });
}

#[test]
fn decode_register_family() {
    assert_eq!(Op::decode(0x8120), Op::LDR { reg_a: 1, reg_b: 2 });
    assert_eq!(Op::decode(0x8341), Op::OR { reg_a: 3, reg_b: 4 });
    assert_eq!(Op::decode(0x8562), Op::AND { reg_a: 5, reg_b: 6 });
    assert_eq!(Op::decode(0x8783), Op::XOR { reg_a: 7, reg_b: 8 });
    assert_eq!(Op::decode(0x89A4), Op::ADDR { reg_a: 9, reg_b: 0xA });
    assert_eq!(Op::decode(0x8BC5), Op::SUB { reg_a: 0xB, reg_b: 0xC });
    assert_eq!(Op::decode(0x8DE6), Op::SHR { reg_a: 0xD, reg_b: 0xE });
    assert_eq!(Op::decode(0x8F07), Op::SUBN { reg_a: 0xF, reg_b: 0 });
    assert_eq!(Op::decode(0x812E), Op::SHL { reg_a: 1, reg_b: 2 });
    assert_eq!(Op::decode(0x5120), Op::SER { reg_a: 1, reg_b: 2 });
    assert_eq!(Op::decode(0x9340), Op::SNER { reg_a: 3, reg_b: 4 });
}

#[test]
fn decode_draw_and_keys() {
    assert_eq!(Op::decode(0xD125), Op::DRW { reg_a: 1, reg_b: 2, nibble: 5 });
    assert_eq!(Op::decode(0xE39E), Op::SKP { reg: 3 });
    assert_eq!(Op::decode(0xE4A1), Op::SKNP { reg: 4 });
}

#[test]
fn decode_timer_and_memory_family() {
    assert_eq!(Op::decode(0xA321), Op::LDA { addr: 0x321 });
    assert_eq!(Op::decode(0xF107), Op::LDDT { reg: 1 });
    assert_eq!(Op::decode(0xF20A), Op::LDKP { reg: 2 });
    assert_eq!(Op::decode(0xF315), Op::STDT { reg: 3 });
    assert_eq!(Op::decode(0xF418), Op::STST { reg: 4 });
    assert_eq!(Op::decode(0xF51E), Op::ADDA { reg: 5 });
    assert_eq!(Op::decode(0xF629), Op::LDSA { reg: 6 });
    assert_eq!(Op::decode(0xF733), Op::STDR { reg: 7 });
    assert_eq!(Op::decode(0xF855), Op::STRR { reg: 8 });
    assert_eq!(Op::decode(0xF965), Op::LDRR { reg: 9 });
}

#[test]
fn undefined_words_decode_to_invalid() {
    assert_eq!(Op::decode(0x5121), Op::INV { opcode: 0x5121 });
    assert_eq!(Op::decode(0x8128), Op::INV { opcode: 0x8128 });
    assert_eq!(Op::decode(0x812F), Op::INV { opcode: 0x812F });
    assert_eq!(Op::decode(0x9341), Op::INV { opcode: 0x9341 });
    assert_eq!(Op::decode(0xE39F), Op::INV { opcode: 0xE39F });
    assert_eq!(Op::decode(0xE300), Op::INV { opcode: 0xE300 });
    assert_eq!(Op::decode(0xF100), Op::INV { opcode: 0xF100 });
    assert_eq!(Op::decode(0xFFFF), Op::INV { opcode: 0xFFFF });
}

#[test]
fn decoded_fields_reassemble_to_the_word() {
    // the operand fields of a defined word are recovered exactly
    match Op::decode(0xD7A3) {
        Op::DRW { reg_a, reg_b, nibble } => {
            let word = 0xD000u16
                | ((reg_a as u16) << 8)
                | ((reg_b as u16) << 4)
                | nibble as u16;
            assert_eq!(word, 0xD7A3);
        }
        _ => panic!("expected a draw instruction"),
    }
    match Op::decode(0x3A42) {
        Op::SE { reg, byte } => {
            let word = 0x3000u16 | ((reg as u16) << 8) | byte as u16;
            assert_eq!(word, 0x3A42);
        }
        _ => panic!("expected a skip-equal instruction"),
    }
}

#[test]
fn mnemonics() {
    assert_eq!(Op::decode(0x00E0).name(), "CLS");
    assert_eq!(Op::decode(0x1200).name(), "JP");
    assert_eq!(Op::decode(0x8124).name(), "ADDR");
    assert_eq!(Op::decode(0xD011).name(), "DRW");
    assert_eq!(Op::decode(0xFFFF).name(), "INV");
}
