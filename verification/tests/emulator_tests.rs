use libchip8::decoder::decode;
use libchip8::emulator::Emulator;
use libchip8::fault::Fault;

#[test]
fn end_to_end_three_steps() {
    // LD V0, 0x0A; ADD V0, 0x05; CLS.
    let rom = [0x60u8, 0x0A, 0x70, 0x05, 0x00, 0xE0];
    let mut em = Emulator::new();
    em.load(&rom, 0x200).unwrap();
    em.step().unwrap();
    em.step().unwrap();
    em.step().unwrap();
    assert_eq!(em.cpu().reg(0), 0x0F);
    assert_eq!(em.cpu().pc(), 0x206);
    for y in 0..32 {
        for x in 0..64 {
            assert!(!em.scr().get(x, y));
        }
    }
}

#[test]
fn call_then_ret_restores_pc_and_sp() {
    let mut em = Emulator::new();
    assert_eq!(em.cpu().pc(), 0x200);
    em.exec(decode(0x2300)).unwrap();
    assert_eq!(em.cpu().pc(), 0x300);
    assert_eq!(em.cpu().sp(), 1);
    em.exec(decode(0x00EE)).unwrap();
    assert_eq!(em.cpu().pc(), 0x202);
    assert_eq!(em.cpu().sp(), 0);
}

#[test]
fn sixteen_nested_calls_succeed_the_seventeenth_overflows() {
    let mut em = Emulator::new();
    for k in 0..16 {
        assert_eq!(em.exec(decode(0x2300)), Ok(()), "call {} should fit", k);
    }
    assert_eq!(em.cpu().sp(), 16);
    assert_eq!(em.exec(decode(0x2300)), Err(Fault::StackOverflow));
    assert_eq!(em.cpu().sp(), 16);
    for _ in 0..16 {
        assert_eq!(em.exec(decode(0x00EE)), Ok(()));
    }
    assert_eq!(em.cpu().sp(), 0);
}

#[test]
fn ret_with_empty_stack_underflows_and_changes_nothing() {
    let mut em = Emulator::new();
    em.exec(decode(0x6A42)).unwrap();
    let pc = em.cpu().pc();
    assert_eq!(em.exec(decode(0x00EE)), Err(Fault::StackUnderflow));
    assert_eq!(em.cpu().pc(), pc);
    assert_eq!(em.cpu().sp(), 0);
    assert_eq!(em.cpu().reg(0xA), 0x42);
    for k in 0..16 {
        if k != 0xA {
            assert_eq!(em.cpu().reg(k), 0);
        }
    }
}

#[test]
fn unknown_opcode_faults_with_raw_and_pc() {
    let mut em = Emulator::new();
    assert_eq!(em.exec(decode(0xFFFF)), Err(Fault::UnknownOpcode(0xFFFF, 0x200)));
    assert_eq!(em.cpu().pc(), 0x200);
}

#[test]
fn rom_too_large_is_rejected_before_execution() {
    let mut em = Emulator::new();
    let rom = vec![0u8; 3585];
    assert_eq!(em.load(&rom, 0x200), Err(Fault::RomTooLarge));
    let fits = vec![0u8; 3584];
    assert_eq!(em.load(&fits, 0x200), Ok(()));
}

#[test]
fn memory_reads_are_address_checked() {
    let em = Emulator::new();
    assert_eq!(em.read_mem(4095), Ok(0));
    assert_eq!(em.read_mem(4096), Err(Fault::AddressOutOfRange(4096)));
}

#[test]
fn bcd_writes_three_digits_at_i() {
    let mut em = Emulator::new();
    em.exec(decode(0x60FB)).unwrap();  // V0 = 251
    em.exec(decode(0xA300)).unwrap();  // I = 0x300
    em.exec(decode(0xF033)).unwrap();
    assert_eq!(em.read_mem(0x300), Ok(2));
    assert_eq!(em.read_mem(0x301), Ok(5));
    assert_eq!(em.read_mem(0x302), Ok(1));
}

#[test]
fn bcd_near_the_end_of_memory_faults() {
    let mut em = Emulator::new();
    em.exec(decode(0xAFFE)).unwrap();  // I = 4094
    let pc = em.cpu().pc();
    assert_eq!(em.exec(decode(0xF033)), Err(Fault::AddressOutOfRange(4094)));
    assert_eq!(em.cpu().pc(), pc);
}

#[test]
fn store_and_load_registers_round_trip() {
    let mut em = Emulator::new();
    em.exec(decode(0x6011)).unwrap();
    em.exec(decode(0x6122)).unwrap();
    em.exec(decode(0x6233)).unwrap();
    em.exec(decode(0xA300)).unwrap();
    em.exec(decode(0xF255)).unwrap();  // dump V0..=V2 at I
    assert_eq!(em.read_mem(0x300), Ok(0x11));
    assert_eq!(em.read_mem(0x301), Ok(0x22));
    assert_eq!(em.read_mem(0x302), Ok(0x33));
    assert_eq!(em.read_mem(0x303), Ok(0));
    assert_eq!(em.cpu().i_reg(), 0x300);

    em.exec(decode(0x6000)).unwrap();
    em.exec(decode(0x6100)).unwrap();
    em.exec(decode(0x6200)).unwrap();
    em.exec(decode(0xF265)).unwrap();  // load V0..=V2 from I
    assert_eq!(em.cpu().reg(0), 0x11);
    assert_eq!(em.cpu().reg(1), 0x22);
    assert_eq!(em.cpu().reg(2), 0x33);
}

#[test]
fn font_lookup_points_at_the_glyph() {
    let mut em = Emulator::new();
    em.store_font();
    em.exec(decode(0x6007)).unwrap();  // V0 = 7
    em.exec(decode(0xF029)).unwrap();  // I = glyph address of 7
    assert_eq!(em.cpu().i_reg(), 0x50 + 5 * 7);
    assert_eq!(em.read_mem(0x50 + 5 * 7), Ok(0xF0));
    assert_eq!(em.read_mem(0x50 + 5 * 7 + 1), Ok(0x10));
}

#[test]
fn draw_instruction_reads_the_sprite_at_i() {
    let mut em = Emulator::new();
    em.store_font();
    em.exec(decode(0x6000)).unwrap();  // V0 = 0
    em.exec(decode(0xF029)).unwrap();  // I = glyph 0
    em.exec(decode(0x6105)).unwrap();  // V1 = x = 5
    em.exec(decode(0x6203)).unwrap();  // V2 = y = 3
    em.exec(decode(0xD125)).unwrap();  // 5 rows at (V1, V2)
    assert_eq!(em.cpu().reg(0xF), 0);
    // Glyph 0 is 0xF0,0x90,0x90,0x90,0xF0.
    assert!(em.scr().get(5, 3));
    assert!(em.scr().get(8, 3));
    assert!(!em.scr().get(9, 3));
    assert!(em.scr().get(5, 4));
    assert!(!em.scr().get(6, 4));
    assert!(em.scr().get(8, 4));
    // Drawing the same glyph again collides and erases it.
    em.exec(decode(0xD125)).unwrap();
    assert_eq!(em.cpu().reg(0xF), 1);
    assert!(!em.scr().get(5, 3));
}

#[test]
fn skip_instructions_advance_by_four() {
    let mut em = Emulator::new();
    em.exec(decode(0x6007)).unwrap();  // V0 = 7
    let pc = em.cpu().pc();
    em.exec(decode(0x3007)).unwrap();  // SE V0, 7: taken
    assert_eq!(em.cpu().pc(), pc + 4);
    let pc = em.cpu().pc();
    em.exec(decode(0x3008)).unwrap();  // SE V0, 8: not taken
    assert_eq!(em.cpu().pc(), pc + 2);
}

#[test]
fn skp_and_sknp_read_the_key_named_by_vx() {
    let mut em = Emulator::new();
    em.key_pressed(None, 5);
    em.exec(decode(0x6005)).unwrap();  // V0 = 5
    let pc = em.cpu().pc();
    em.exec(decode(0xE09E)).unwrap();  // SKP V0: key 5 pressed, skip
    assert_eq!(em.cpu().pc(), pc + 4);
    let pc = em.cpu().pc();
    em.exec(decode(0xE0A1)).unwrap();  // SKNP V0: key 5 pressed, no skip
    assert_eq!(em.cpu().pc(), pc + 2);
}

#[test]
fn wait_key_re_executes_until_a_key_is_pressed() {
    let rom = [0xF1u8, 0x0A];  // LD V1, K
    let mut em = Emulator::new();
    em.load(&rom, 0x200).unwrap();
    em.step().unwrap();
    assert_eq!(em.cpu().pc(), 0x200);
    em.step().unwrap();
    assert_eq!(em.cpu().pc(), 0x200);
    em.key_pressed(None, 0xB);
    em.step().unwrap();
    assert_eq!(em.cpu().pc(), 0x202);
    assert_eq!(em.cpu().reg(1), 0xB);
}

#[test]
fn rnd_masks_the_supplied_byte() {
    let mut em = Emulator::new();
    em.exec_with_rand(decode(0xC0FF), 0xAB).unwrap();
    assert_eq!(em.cpu().reg(0), 0xAB);
    em.exec_with_rand(decode(0xC10F), 0xAB).unwrap();
    assert_eq!(em.cpu().reg(1), 0x0B);
    em.exec_with_rand(decode(0xC200), 0xAB).unwrap();
    assert_eq!(em.cpu().reg(2), 0x00);
}

#[test]
fn rnd_through_the_random_source_respects_the_mask() {
    let mut em = Emulator::new();
    em.exec(decode(0xC00F)).unwrap();
    assert_eq!(em.cpu().reg(0) & 0xF0, 0);
}

#[test]
fn jumps_load_the_program_counter() {
    let mut em = Emulator::new();
    em.exec(decode(0x1ABC)).unwrap();
    assert_eq!(em.cpu().pc(), 0xABC);
    let mut em = Emulator::new();
    em.exec(decode(0x6004)).unwrap();  // V0 = 4
    em.exec(decode(0xB300)).unwrap();  // JP V0 + 0x300
    assert_eq!(em.cpu().pc(), 0x304);
}

#[test]
fn fetch_decodes_the_word_at_pc_without_advancing() {
    let rom = [0x6Au8, 0x42];
    let mut em = Emulator::new();
    em.load(&rom, 0x200).unwrap();
    let i1 = em.fetch().unwrap();
    assert_eq!(i1.to_instr(), 0x6A42);
    assert_eq!(em.cpu().pc(), 0x200);
    let i2 = em.fetch().unwrap();
    assert_eq!(i1, i2);
}

#[test]
fn step_at_the_last_byte_of_memory_faults() {
    let mut em = Emulator::new();
    em.exec(decode(0x1FFF)).unwrap();  // JP 0xFFF
    assert_eq!(em.cpu().pc(), 0xFFF);
    assert!(em.fetch().is_none());
    assert_eq!(em.step(), Err(Fault::AddressOutOfRange(0xFFF)));
    assert_eq!(em.cpu().pc(), 0xFFF);
}

#[test]
fn exec_records_the_instruction_for_diagnostics() {
    let mut em = Emulator::new();
    assert!(em.cpu().instr().is_none());
    em.exec(decode(0x6A42)).unwrap();
    assert_eq!(em.cpu().instr().unwrap().to_instr(), 0x6A42);
}
