use libchip8::decoder::decode;
use libchip8::emulator::Emulator;

fn load_v(em: &mut Emulator, x: u16, v: u8) {
    let raw = 0x6000 | (x << 8) | v as u16;
    em.exec(decode(raw)).unwrap();
}

#[test]
fn add_with_carry_sets_vf_on_overflow() {
    let mut em = Emulator::new();
    load_v(&mut em, 0, 200);
    load_v(&mut em, 1, 100);
    em.exec(decode(0x8014)).unwrap();
    assert_eq!(em.cpu().reg(0), 44);
    assert_eq!(em.cpu().reg(0xF), 1);
}

#[test]
fn add_without_overflow_clears_vf() {
    let mut em = Emulator::new();
    load_v(&mut em, 0, 10);
    load_v(&mut em, 1, 5);
    em.exec(decode(0x8014)).unwrap();
    assert_eq!(em.cpu().reg(0), 15);
    assert_eq!(em.cpu().reg(0xF), 0);
}

#[test]
fn add_exact_boundary() {
    let mut em = Emulator::new();
    load_v(&mut em, 0, 255);
    load_v(&mut em, 1, 1);
    em.exec(decode(0x8014)).unwrap();
    assert_eq!(em.cpu().reg(0), 0);
    assert_eq!(em.cpu().reg(0xF), 1);

    load_v(&mut em, 2, 254);
    load_v(&mut em, 3, 1);
    em.exec(decode(0x8234)).unwrap();
    assert_eq!(em.cpu().reg(2), 255);
    assert_eq!(em.cpu().reg(0xF), 0);
}

#[test]
fn sub_without_borrow_sets_vf() {
    let mut em = Emulator::new();
    load_v(&mut em, 0, 10);
    load_v(&mut em, 1, 5);
    em.exec(decode(0x8015)).unwrap();
    assert_eq!(em.cpu().reg(0), 5);
    assert_eq!(em.cpu().reg(0xF), 1);
}

#[test]
fn sub_with_borrow_clears_vf_and_wraps() {
    let mut em = Emulator::new();
    load_v(&mut em, 0, 5);
    load_v(&mut em, 1, 10);
    em.exec(decode(0x8015)).unwrap();
    assert_eq!(em.cpu().reg(0), 251);
    assert_eq!(em.cpu().reg(0xF), 0);
}

#[test]
fn sub_equal_values_counts_as_no_borrow() {
    let mut em = Emulator::new();
    load_v(&mut em, 0, 7);
    load_v(&mut em, 1, 7);
    em.exec(decode(0x8015)).unwrap();
    assert_eq!(em.cpu().reg(0), 0);
    assert_eq!(em.cpu().reg(0xF), 1);
}

#[test]
fn subn_reverses_the_operands() {
    let mut em = Emulator::new();
    load_v(&mut em, 0, 5);
    load_v(&mut em, 1, 10);
    em.exec(decode(0x8017)).unwrap();
    assert_eq!(em.cpu().reg(0), 5);
    assert_eq!(em.cpu().reg(0xF), 1);
}

#[test]
fn shr_reports_the_bit_shifted_out() {
    let mut em = Emulator::new();
    load_v(&mut em, 0, 0x05);
    em.exec(decode(0x8006)).unwrap();
    assert_eq!(em.cpu().reg(0), 0x02);
    assert_eq!(em.cpu().reg(0xF), 1);

    load_v(&mut em, 1, 0x04);
    em.exec(decode(0x8106)).unwrap();
    assert_eq!(em.cpu().reg(1), 0x02);
    assert_eq!(em.cpu().reg(0xF), 0);
}

#[test]
fn shl_reports_the_bit_shifted_out_and_wraps() {
    let mut em = Emulator::new();
    load_v(&mut em, 0, 0x81);
    em.exec(decode(0x800E)).unwrap();
    assert_eq!(em.cpu().reg(0), 0x02);
    assert_eq!(em.cpu().reg(0xF), 1);

    load_v(&mut em, 1, 0x41);
    em.exec(decode(0x810E)).unwrap();
    assert_eq!(em.cpu().reg(1), 0x82);
    assert_eq!(em.cpu().reg(0xF), 0);
}

#[test]
fn add_byte_has_no_carry_flag() {
    let mut em = Emulator::new();
    load_v(&mut em, 0, 250);
    em.exec(decode(0x700A)).unwrap();
    assert_eq!(em.cpu().reg(0), 4);
    assert_eq!(em.cpu().reg(0xF), 0);
}

#[test]
fn bitwise_ops() {
    let mut em = Emulator::new();
    load_v(&mut em, 0, 0b1100);
    load_v(&mut em, 1, 0b1010);
    em.exec(decode(0x8011)).unwrap();
    assert_eq!(em.cpu().reg(0), 0b1110);

    load_v(&mut em, 0, 0b1100);
    em.exec(decode(0x8012)).unwrap();
    assert_eq!(em.cpu().reg(0), 0b1000);

    load_v(&mut em, 0, 0b1100);
    em.exec(decode(0x8013)).unwrap();
    assert_eq!(em.cpu().reg(0), 0b0110);
}
