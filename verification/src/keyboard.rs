//! The sixteen-key virtual keyboard state.

use vstd::prelude::*;

use crate::arch;

verus! {

/// Pressed/released state for each of the sixteen virtual keys.
pub struct Keyboard {
    keys: Vec<bool>,
}

impl View for Keyboard {
    type V = Seq<bool>;

    closed spec fn view(&self) -> Seq<bool> {
        self.keys@
    }
}

/// A well-formed keyboard holds one flag per virtual key.
pub open spec fn keys_wf(keys: Seq<bool>) -> bool {
    keys.len() == arch::NUM_KEYS
}

/// The all-released keyboard.
pub open spec fn no_keys() -> Seq<bool> {
    Seq::new(arch::NUM_KEYS as nat, |i: int| false)
}

/// The lowest pressed key index at or above position `k`, if any.
pub open spec fn first_pressed_from(keys: Seq<bool>, k: int) -> Option<u8>
    decreases arch::NUM_KEYS - k,
{
    if 0 <= k < arch::NUM_KEYS {
        if keys[k] {
            Some(k as u8)
        } else {
            first_pressed_from(keys, k + 1)
        }
    } else {
        None
    }
}

/// The lowest pressed key index, if any key is pressed.
pub open spec fn first_pressed(keys: Seq<bool>) -> Option<u8> {
    first_pressed_from(keys, 0)
}

impl Keyboard {
    /// A keyboard with every key released.
    pub fn new() -> (k: Keyboard)
        ensures
            k@ == no_keys(),
            keys_wf(k@),
    {
        let mut keys: Vec<bool> = Vec::new();
        let mut i: usize = 0;
        while i < arch::NUM_KEYS
            invariant
                i <= arch::NUM_KEYS,
                keys@.len() == i,
                forall|j: int| 0 <= j < i ==> !(#[trigger] keys@[j]),
            decreases arch::NUM_KEYS - i,
        {
            keys.push(false);
            i = i + 1;
        }
        proof {
            assert(keys@ =~= no_keys());
        }
        Keyboard { keys }
    }

    /// Whether the key with the given index is currently pressed.
    pub fn pressed(&self, key: usize) -> (r: bool)
        requires
            keys_wf(self@),
            key < arch::NUM_KEYS,
        ensures
            r == self@[key as int],
    {
        self.keys[key]
    }

    /// Record that a key went down or up. An index outside the virtual
    /// keypad is ignored.
    pub fn press(&mut self, key: usize, down: bool)
        requires
            keys_wf(old(self)@),
        ensures
            keys_wf(final(self)@),
            key < arch::NUM_KEYS ==> final(self)@ == old(self)@.update(key as int, down),
            key >= arch::NUM_KEYS ==> final(self)@ == old(self)@,
    {
        if key < arch::NUM_KEYS {
            self.keys.set(key, down);
        }
    }
}

} // verus!
