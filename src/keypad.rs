use vstd::prelude::*;

verus! {

/// The number of keys on the keypad, indexed `0x0` to `0xF`.
pub const KEY_COUNT: usize = 16;

/// Level state of the sixteen input keys.
pub struct Keypad {
    pub keys: Vec<bool>,
}

impl Keypad {
    /// Holds exactly one state per key.
    pub open spec fn wf(&self) -> bool {
        self.keys@.len() == KEY_COUNT
    }

    /// A keypad with every key released.
    pub fn new() -> (r: Keypad)
        ensures
            r.wf(),
            r.keys@ == Seq::new(KEY_COUNT as nat, |k: int| false),
    {
        let r = Keypad { keys: vec![false; KEY_COUNT] };
        assert(r.keys@ =~= Seq::new(KEY_COUNT as nat, |k: int| false));
        r
    }

    /// Whether `key` is currently held down.
    pub fn is_pressed(&self, key: u8) -> (r: bool)
        requires
            self.wf(),
            key < KEY_COUNT,
        ensures
            r == self.keys@[key as int],
    {
        self.keys[key as usize]
    }

    /// Records that `key` went down.
    pub fn key_down(&mut self, key: u8)
        requires
            old(self).wf(),
            key < KEY_COUNT,
        ensures
            final(self).keys@ == old(self).keys@.update(key as int, true),
    {
        self.keys.set(key as usize, true);
    }

    /// Records that `key` went up.
    pub fn key_up(&mut self, key: u8)
        requires
            old(self).wf(),
            key < KEY_COUNT,
        ensures
            final(self).keys@ == old(self).keys@.update(key as int, false),
    {
        self.keys.set(key as usize, false);
    }
}

} // verus!
