use libchip8::key_map::{map_base16_to_key, map_key_to_base16};

#[test]
fn every_key_renders_to_a_character_and_back() {
    for idx in 0..16 {
        let c = map_base16_to_key(idx).unwrap();
        assert_eq!(map_key_to_base16(c), Some(idx));
    }
}

#[test]
fn the_layout_matches_the_left_hand_block() {
    assert_eq!(map_base16_to_key(0), Some('x'));
    assert_eq!(map_base16_to_key(1), Some('1'));
    assert_eq!(map_base16_to_key(4), Some('q'));
    assert_eq!(map_base16_to_key(0xC), Some('4'));
    assert_eq!(map_base16_to_key(0xF), Some('v'));
    assert_eq!(map_base16_to_key(16), None);
}

#[test]
fn unmapped_characters_name_no_key() {
    assert_eq!(map_key_to_base16('b'), None);
    assert_eq!(map_key_to_base16('5'), None);
    assert_eq!(map_key_to_base16(' '), None);
}
