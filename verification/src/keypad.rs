//! A keypad for hosts that keep the state of their keys in a table.

use crate::state::KeyAnswer;
use crate::vm::KeyboardHandler;
use vstd::prelude::*;

verus! {

/// A keypad as a table of sixteen switches. The host sets a switch when a key
/// goes down or up; the machine reads them.
pub struct BasicKeyboardHandler {
    /// Whether each of the keys 0 to 15 is down.
    pub status: [bool; 16],
    /// Every question that was asked, with its answer.
    asked: Ghost<Seq<KeyAnswer>>,
}

impl View for BasicKeyboardHandler {
    type V = Seq<bool>;

    /// The sixteen switches.
    closed spec fn view(&self) -> Seq<bool> {
        self.status@
    }
}

impl BasicKeyboardHandler {
    /// A keypad with every key up, that was asked nothing yet.
    pub fn new() -> (keypad: Self)
        ensures
            keypad@ == Seq::new(16, |key: int| false),
            keypad.asked() == Seq::<KeyAnswer>::empty(),
    {
        let keypad = BasicKeyboardHandler { status: [false; 16], asked: Ghost(Seq::empty()) };
        assert(keypad@ =~= Seq::new(16, |key: int| false));
        keypad
    }
}

impl KeyboardHandler for BasicKeyboardHandler {
    closed spec fn asked(&self) -> Seq<KeyAnswer> {
        self.asked@
    }

    /// Whether the switch of `key` is set. A number that is no key's has no
    /// switch: such a key is up.
    fn is_pressed(&mut self, key: u8) -> (pressed: bool)
        ensures
            pressed == (key < 16 && old(self)@[key as int]),
            final(self)@ == old(self)@,
    {
        let pressed = key < 16 && self.status[key as usize];
        self.asked = Ghost(self.asked@.push(KeyAnswer { key, pressed }));
        pressed
    }
}

} // verus!
