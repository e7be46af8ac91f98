use libchip8::decoder::decode;
use libchip8::emulator::Emulator;
use libchip8::timers::Timers;

#[test]
fn tick_returns_then_decrements() {
    let mut t = Timers::new();
    t.set_delay(2);
    t.set_sound(1);
    assert_eq!(t.tick(), (2, 1));
    assert_eq!(t.tick(), (1, 0));
    assert_eq!(t.tick(), (0, 0));
}

#[test]
fn tick_floors_at_zero_and_stays_there() {
    let mut t = Timers::new();
    t.set_delay(1);
    t.tick();
    for _ in 0..100 {
        assert_eq!(t.tick(), (0, 0));
    }
    assert_eq!(t.delay(), 0);
    assert_eq!(t.sound(), 0);
}

#[test]
fn timer_instructions_write_and_read_the_counters() {
    let mut em = Emulator::new();
    em.exec(decode(0x6009)).unwrap();  // V0 = 9
    em.exec(decode(0xF015)).unwrap();  // delay = V0
    em.exec(decode(0x6100)).unwrap();  // V1 = 0
    em.exec(decode(0xF107)).unwrap();  // V1 = delay
    assert_eq!(em.cpu().reg(1), 9);

    em.exec(decode(0x6204)).unwrap();  // V2 = 4
    em.exec(decode(0xF218)).unwrap();  // sound = V2
    assert_eq!(em.tick(), (9, 4));
    assert_eq!(em.tick(), (8, 3));
}
