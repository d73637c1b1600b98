//! The sixteen keys of the pad: each is pressed or not, nothing more.
use vstd::prelude::*;

verus! {

/// Number of keys on the pad.
pub const KEY_COUNT: usize = 16;

/// The lowest pressed key at or above `from`, if there is one.
pub open spec fn first_pressed_from(keys: Seq<bool>, from: int) -> Option<u8>
    decreases 16 - from,
{
    if from < 0 || from >= 16 {
        None
    } else if keys[from] {
        Some(from as u8)
    } else {
        first_pressed_from(keys, from + 1)
    }
}

/// The lowest pressed key, if any key is pressed.
pub open spec fn first_pressed(keys: Seq<bool>) -> Option<u8> {
    first_pressed_from(keys, 0)
}

/// No key below `bound` is pressed.
pub open spec fn none_pressed_below(keys: Seq<bool>, bound: int) -> bool {
    forall|j: int| 0 <= j < bound && j < 16 ==> !keys[j]
}

/// `first_pressed_from` finds exactly the lowest pressed key at or above
/// `from`, and finds none exactly when none is pressed there.
pub proof fn lemma_first_pressed_from(keys: Seq<bool>, from: int)
    requires
        0 <= from <= 16,
    ensures
        match first_pressed_from(keys, from) {
            Some(k) => from <= k < 16 && keys[k as int] && forall|j: int|
                from <= j < k ==> !keys[j],
            None => forall|j: int| from <= j < 16 ==> !keys[j],
        },
    decreases 16 - from,
{
    if from < 16 && !keys[from] {
        lemma_first_pressed_from(keys, from + 1);
    }
}

/// `first_pressed` is the lowest pressed key, and is `None` exactly when no
/// key is pressed.
pub proof fn lemma_first_pressed(keys: Seq<bool>)
    ensures
        match first_pressed(keys) {
            Some(k) => k < 16 && keys[k as int] && none_pressed_below(keys, k as int),
            None => none_pressed_below(keys, 16),
        },
{
    lemma_first_pressed_from(keys, 0);
}

/// The press state of the pad.
pub struct Keyboard {
    keys: [bool; 16],
}

impl View for Keyboard {
    type V = Seq<bool>;

    closed spec fn view(&self) -> Seq<bool> {
        self.keys@
    }
}

impl Keyboard {
    /// A pad always has sixteen keys.
    pub proof fn lemma_size(&self)
        ensures
            self@.len() == 16,
    {
    }

    /// A pad with no key pressed.
    pub fn new() -> (k: Self)
        ensures
            k@ == Seq::new(16, |j: int| false),
    {
        let k = Keyboard { keys: [false; 16] };
        assert(k@ =~= Seq::new(16, |j: int| false));
        k
    }

    /// Whether `key` is pressed.
    pub fn is_pressed(&self, key: u8) -> (pressed: bool)
        requires
            key < 16,
        ensures
            pressed == self@[key as int],
    {
        self.keys[key as usize]
    }

    /// Marks `key` as pressed.
    pub fn press_key(&mut self, key: u8)
        requires
            key < 16,
        ensures
            final(self)@ == old(self)@.update(key as int, true),
    {
        self.keys[key as usize] = true;
    }

    /// Marks `key` as not pressed.
    pub fn release_key(&mut self, key: u8)
        requires
            key < 16,
        ensures
            final(self)@ == old(self)@.update(key as int, false),
    {
        self.keys[key as usize] = false;
    }

    /// Takes the lowest pressed key: returns it and releases it. With no key
    /// pressed, returns `None` and changes nothing.
    pub fn get_pressed(&mut self) -> (key: Option<u8>)
        ensures
            key == first_pressed(old(self)@),
            match key {
                Some(k) => {
                    &&& k < 16
                    &&& old(self)@[k as int]
                    &&& none_pressed_below(old(self)@, k as int)
                    &&& final(self)@ == old(self)@.update(k as int, false)
                },
                None => none_pressed_below(old(self)@, 16) && final(self)@ == old(self)@,
            },
    {
        let mut i: u8 = 0;
        while i < 16
            invariant
                i <= 16,
                self@ == old(self)@,
                none_pressed_below(self@, i as int),
            decreases 16 - i,
        {
            if self.is_pressed(i) {
                self.release_key(i);
                proof {
                    lemma_first_pressed(old(self)@);
                }
                return Some(i);
            }
            i += 1;
        }
        proof {
            lemma_first_pressed(old(self)@);
        }
        None
    }
}

} // verus!
