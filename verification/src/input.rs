use vstd::prelude::*;

verus! {

/// Mathematical model of the keyboard: the 16 key states and the key the
/// debounce logic currently tracks as held.
#[verifier::ext_equal]
pub ghost struct KeyboardView {
    pub keys: Seq<bool>,
    pub held: Option<usize>,
}

/// The lowest pressed key index at or above `k`, if any.
pub open spec fn first_pressed_from(keys: Seq<bool>, k: int) -> Option<u8>
    decreases 16 - k,
{
    if k < 0 || k >= 16 {
        None
    } else if keys[k] {
        Some(k as u8)
    } else {
        first_pressed_from(keys, k + 1)
    }
}

/// The lowest pressed key index, if any key is pressed at all: what the
/// wait-for-key instruction (Fx0A) observes.
pub open spec fn spec_first_pressed(keys: Seq<bool>) -> Option<u8> {
    first_pressed_from(keys, 0)
}

/// 16 boolean key states, all initially false, plus single-active-key
/// debounce bookkeeping: the model tracks one currently held key to mirror a
/// single-keystroke input source that reports key-down but not key-up. A new
/// key press implicitly releases whatever was previously held, and the
/// driving loop calls `key_released` once its debounce window elapses with no
/// fresh event.
pub struct Keyboard {
    keys: [bool; 16],
    held: Option<usize>,
}

impl View for Keyboard {
    type V = KeyboardView;

    closed spec fn view(&self) -> KeyboardView {
        KeyboardView { keys: self.keys@, held: self.held }
    }
}

impl Keyboard {
    /// There are always exactly 16 keys, and a held key is a valid index.
    #[verifier::type_invariant]
    pub open spec fn inv(self) -> bool {
        &&& self@.keys.len() == 16
        &&& self@.held matches Some(k) ==> k < 16
    }

    pub fn new() -> (kbd: Keyboard)
        ensures
            kbd@.keys.len() == 16,
            forall|k: int| 0 <= k < 16 ==> !kbd@.keys[k],
            kbd@.held is None,
    {
        Keyboard { keys: [false; 16], held: None }
    }

    /// The current boolean state of one key; the skip instructions (Ex9E,
    /// ExA1) and the renderer read keys through this, with no debounce logic
    /// involved.
    pub fn get(&self, k: usize) -> (r: bool)
        requires
            k < 16,
        ensures
            r == self@.keys[k as int],
    {
        self.keys[k]
    }

    /// A key-down event: release `old_key` (the key the caller was tracking)
    /// if present, then press `new_key` and track it as held.
    pub fn key_pressed(&mut self, old_key: Option<usize>, new_key: usize)
        requires
            new_key < 16,
            old_key matches Some(k) ==> k < 16,
        ensures
            final(self)@.keys == (match old_key {
                Some(k) => old(self)@.keys.update(k as int, false),
                None => old(self)@.keys,
            }).update(new_key as int, true),
            final(self)@.held == Some(new_key),
    {
        proof {
            use_type_invariant(&*self);
        }
        if let Some(k) = old_key {
            self.keys[k] = false;
        }
        self.keys[new_key] = true;
        self.held = Some(new_key);
    }

    /// The debounce timeout: clear the currently held key, if any, and forget
    /// it.
    pub fn key_released(&mut self)
        ensures
            final(self)@.keys == (match old(self)@.held {
                Some(k) => old(self)@.keys.update(k as int, false),
                None => old(self)@.keys,
            }),
            final(self)@.held is None,
    {
        proof {
            use_type_invariant(&*self);
        }
        if let Some(k) = self.held {
            self.keys[k] = false;
        }
        self.held = None;
    }

    /// The lowest pressed key, if any: the observation the wait-for-key
    /// instruction polls for.
    pub fn first_pressed(&self) -> (r: Option<u8>)
        ensures
            r == spec_first_pressed(self@.keys),
    {
        let mut k: usize = 0;
        while k < 16
            invariant
                0 <= k <= 16,
                self@.keys.len() == 16,
                spec_first_pressed(self@.keys) == first_pressed_from(self@.keys, k as int),
            decreases 16 - k,
        {
            if self.keys[k] {
                return Some(k as u8);
            }
            k = k + 1;
        }
        None
    }
}

} // verus!
