use libchip8::emulator::Emulator;
use libchip8::input::Keyboard;

#[test]
fn key_pressed_tracks_and_releases_the_previous_key() {
    let mut em = Emulator::new();
    em.key_pressed(None, 5);
    assert!(em.kbd().get(5));

    em.key_pressed(Some(5), 7);
    assert!(!em.kbd().get(5));
    assert!(em.kbd().get(7));

    em.key_released();
    for k in 0..16 {
        assert!(!em.kbd().get(k));
    }
}

#[test]
fn key_released_without_a_press_is_harmless() {
    let mut em = Emulator::new();
    em.key_released();
    for k in 0..16 {
        assert!(!em.kbd().get(k));
    }
}

#[test]
fn keyboard_first_pressed_finds_the_lowest_key() {
    let mut kbd = Keyboard::new();
    assert_eq!(kbd.first_pressed(), None);
    kbd.key_pressed(None, 9);
    assert_eq!(kbd.first_pressed(), Some(9));
    kbd.key_pressed(None, 3);
    assert_eq!(kbd.first_pressed(), Some(3));
}
