use libchip8::decoder::{decode, Op};

#[test]
fn decode_is_deterministic() {
    for raw in [0x00E0u16, 0x00EE, 0x1234, 0x8AB4, 0xFFFF, 0xD01F, 0x0000] {
        assert_eq!(decode(raw), decode(raw));
    }
}

#[test]
fn decode_retains_raw_opcode() {
    for raw in [0x00E0u16, 0x1234, 0xFFFF, 0x0000, 0x8126] {
        assert_eq!(decode(raw).to_instr(), raw);
        assert_eq!(decode(raw).raw, raw);
    }
}

#[test]
fn decode_control_flow() {
    assert_eq!(decode(0x00E0).op, Op::Cls);
    assert_eq!(decode(0x00EE).op, Op::Ret);
    assert_eq!(decode(0x1ABC).op, Op::Jp(0xABC));
    assert_eq!(decode(0x2300).op, Op::Call(0x300));
    assert_eq!(decode(0xB123).op, Op::JpV0(0x123));
}

#[test]
fn decode_skips_and_loads() {
    assert_eq!(decode(0x3A7F).op, Op::SeByte(0xA, 0x7F));
    assert_eq!(decode(0x4A7F).op, Op::SneByte(0xA, 0x7F));
    assert_eq!(decode(0x5AB0).op, Op::SeReg(0xA, 0xB));
    assert_eq!(decode(0x9AB0).op, Op::SneReg(0xA, 0xB));
    assert_eq!(decode(0x6C42).op, Op::LdByte(0xC, 0x42));
    assert_eq!(decode(0x7C42).op, Op::AddByte(0xC, 0x42));
    assert_eq!(decode(0xA123).op, Op::LdI(0x123));
}

#[test]
fn decode_alu_family() {
    assert_eq!(decode(0x8AB0).op, Op::LdReg(0xA, 0xB));
    assert_eq!(decode(0x8AB1).op, Op::Or(0xA, 0xB));
    assert_eq!(decode(0x8AB2).op, Op::And(0xA, 0xB));
    assert_eq!(decode(0x8AB3).op, Op::Xor(0xA, 0xB));
    assert_eq!(decode(0x8AB4).op, Op::AddReg(0xA, 0xB));
    assert_eq!(decode(0x8AB5).op, Op::SubReg(0xA, 0xB));
    assert_eq!(decode(0x8AB6).op, Op::Shr(0xA));
    assert_eq!(decode(0x8AB7).op, Op::Subn(0xA, 0xB));
    assert_eq!(decode(0x8ABE).op, Op::Shl(0xA));
}

#[test]
fn decode_draw_keys_and_misc() {
    assert_eq!(decode(0xC1F0).op, Op::Rnd(0x1, 0xF0));
    assert_eq!(decode(0xD12F).op, Op::Drw(0x1, 0x2, 0xF));
    assert_eq!(decode(0xE19E).op, Op::Skp(0x1));
    assert_eq!(decode(0xE1A1).op, Op::Sknp(0x1));
}

#[test]
fn decode_timer_family() {
    assert_eq!(decode(0xF307).op, Op::ReadDelay(0x3));
    assert_eq!(decode(0xF30A).op, Op::WaitKey(0x3));
    assert_eq!(decode(0xF315).op, Op::SetDelay(0x3));
    assert_eq!(decode(0xF318).op, Op::SetSound(0x3));
    assert_eq!(decode(0xF329).op, Op::Font(0x3));
    assert_eq!(decode(0xF333).op, Op::Bcd(0x3));
    assert_eq!(decode(0xF355).op, Op::StoreRegs(0x3));
    assert_eq!(decode(0xF365).op, Op::LoadRegs(0x3));
}

#[test]
fn decode_unrecognized_patterns() {
    assert_eq!(decode(0xFFFF).op, Op::Unknown);
    assert_eq!(decode(0x0000).op, Op::Unknown);
    assert_eq!(decode(0x0123).op, Op::Unknown);
    assert_eq!(decode(0x5AB1).op, Op::Unknown);
    assert_eq!(decode(0x8AB8).op, Op::Unknown);
    assert_eq!(decode(0x9AB5).op, Op::Unknown);
    assert_eq!(decode(0xE100).op, Op::Unknown);
    assert_eq!(decode(0xF399).op, Op::Unknown);
}
