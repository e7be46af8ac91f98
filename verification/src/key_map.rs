use vstd::prelude::*;

verus! {

/// The terminal character that stands for CHIP-8 key `idx` on a
/// contemporary keyboard: the 4x4 hex pad is laid over the left-hand block
/// x123/qwe/asd/zc4rfv of the keyboard.
pub open spec fn spec_key_char(idx: int) -> Option<char> {
    if idx == 0x0 {
        Some('x')
    } else if idx == 0x1 {
        Some('1')
    } else if idx == 0x2 {
        Some('2')
    } else if idx == 0x3 {
        Some('3')
    } else if idx == 0x4 {
        Some('q')
    } else if idx == 0x5 {
        Some('w')
    } else if idx == 0x6 {
        Some('e')
    } else if idx == 0x7 {
        Some('a')
    } else if idx == 0x8 {
        Some('s')
    } else if idx == 0x9 {
        Some('d')
    } else if idx == 0xA {
        Some('z')
    } else if idx == 0xB {
        Some('c')
    } else if idx == 0xC {
        Some('4')
    } else if idx == 0xD {
        Some('r')
    } else if idx == 0xE {
        Some('f')
    } else if idx == 0xF {
        Some('v')
    } else {
        None
    }
}

/// The CHIP-8 key a terminal character stands for: the inverse of
/// `spec_key_char`.
pub open spec fn spec_char_key(c: char) -> Option<usize> {
    if c == 'x' {
        Some(0x0usize)
    } else if c == '1' {
        Some(0x1usize)
    } else if c == '2' {
        Some(0x2usize)
    } else if c == '3' {
        Some(0x3usize)
    } else if c == 'q' {
        Some(0x4usize)
    } else if c == 'w' {
        Some(0x5usize)
    } else if c == 'e' {
        Some(0x6usize)
    } else if c == 'a' {
        Some(0x7usize)
    } else if c == 's' {
        Some(0x8usize)
    } else if c == 'd' {
        Some(0x9usize)
    } else if c == 'z' {
        Some(0xAusize)
    } else if c == 'c' {
        Some(0xBusize)
    } else if c == '4' {
        Some(0xCusize)
    } else if c == 'r' {
        Some(0xDusize)
    } else if c == 'f' {
        Some(0xEusize)
    } else if c == 'v' {
        Some(0xFusize)
    } else {
        None
    }
}

/// The character that renders CHIP-8 key `idx`, or nothing for an index
/// outside the 16-key pad.
pub fn map_base16_to_key(idx: usize) -> (r: Option<char>)
    ensures
        r == spec_key_char(idx as int),
        idx < 16 ==> r is Some,
{
    match idx {
        0x0 => Some('x'),
        0x1 => Some('1'),
        0x2 => Some('2'),
        0x3 => Some('3'),
        0x4 => Some('q'),
        0x5 => Some('w'),
        0x6 => Some('e'),
        0x7 => Some('a'),
        0x8 => Some('s'),
        0x9 => Some('d'),
        0xA => Some('z'),
        0xB => Some('c'),
        0xC => Some('4'),
        0xD => Some('r'),
        0xE => Some('f'),
        0xF => Some('v'),
        _ => None,
    }
}

/// The CHIP-8 key a typed character names, or nothing for a character
/// outside the pad; a returned index is always a valid key.
pub fn map_key_to_base16(k: char) -> (r: Option<usize>)
    ensures
        r == spec_char_key(k),
        r matches Some(i) ==> i < 16,
{
    match k {
        'x' => Some(0x0),
        '1' => Some(0x1),
        '2' => Some(0x2),
        '3' => Some(0x3),
        'q' => Some(0x4),
        'w' => Some(0x5),
        'e' => Some(0x6),
        'a' => Some(0x7),
        's' => Some(0x8),
        'd' => Some(0x9),
        'z' => Some(0xA),
        'c' => Some(0xB),
        '4' => Some(0xC),
        'r' => Some(0xD),
        'f' => Some(0xE),
        'v' => Some(0xF),
        _ => None,
    }
}

/// The two maps invert each other over the 16-key pad: every key renders to
/// a character that names that same key again.
pub proof fn lemma_key_map_round_trip(idx: int)
    requires
        0 <= idx < 16,
    ensures
        spec_key_char(idx) matches Some(c) && spec_char_key(c) == Some(idx as usize),
{
}

} // verus!
