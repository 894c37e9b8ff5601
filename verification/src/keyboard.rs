//! The sixteen-key input latch.

use vstd::prelude::*;

verus! {

/// `k` is a pressed key of the latch and no key below it is pressed.
pub open spec fn is_lowest_pressed(keys: Seq<bool>, k: int) -> bool {
    &&& 0 <= k < keys.len()
    &&& keys[k]
    &&& forall|j: int| 0 <= j < k ==> !keys[j]
}

/// The smallest index among the pressed keys, or `None` when no key is pressed.
pub open spec fn lowest_pressed(keys: Seq<bool>) -> Option<int> {
    if exists|k: int| is_lowest_pressed(keys, k) {
        Some(choose|k: int| is_lowest_pressed(keys, k))
    } else {
        None
    }
}

/// A latch in which no key is pressed has no lowest pressed key; otherwise the
/// lowest pressed key is the one pressed key that has only released keys below it.
pub proof fn lemma_lowest_pressed(keys: Seq<bool>)
    ensures
        match lowest_pressed(keys) {
            Some(k) => is_lowest_pressed(keys, k),
            None => forall|k: int| 0 <= k < keys.len() ==> !keys[k],
        },
{
    if lowest_pressed(keys) is None {
        assert forall|k: int| 0 <= k < keys.len() implies !keys[k] by {
            lemma_no_pressed_below(keys, k + 1);
        }
    }
}

/// When `lowest_pressed` is `None`, every key below `bound` is released.
proof fn lemma_no_pressed_below(keys: Seq<bool>, bound: int)
    requires
        lowest_pressed(keys) is None,
        0 <= bound <= keys.len(),
    ensures
        forall|j: int| 0 <= j < bound ==> !keys[j],
    decreases bound,
{
    if bound > 0 {
        lemma_no_pressed_below(keys, bound - 1);
        if keys[bound - 1] {
            assert(is_lowest_pressed(keys, bound - 1));
        }
    }
}

/// A key that satisfies `is_lowest_pressed` is the value of `lowest_pressed`.
pub proof fn lemma_lowest_pressed_unique(keys: Seq<bool>, k: int)
    requires
        is_lowest_pressed(keys, k),
    ensures
        lowest_pressed(keys) == Some(k),
{
    let c = choose|c: int| is_lowest_pressed(keys, c);
    assert(is_lowest_pressed(keys, c));
    if c < k {
        assert(!keys[c]);
    } else if k < c {
        assert(!keys[k]);
    }
}

/// One boolean per key `0x0..=0xF`; `true` while the key is held down.
pub struct Keyboard {
    keys: [bool; 16],
}

impl View for Keyboard {
    type V = Seq<bool>;

    closed spec fn view(&self) -> Seq<bool> {
        self.keys@
    }
}

impl Keyboard {
    /// The latch always holds sixteen keys.
    pub proof fn lemma_key_count(&self)
        ensures
            self@.len() == 16,
    {
    }

    /// A latch with every key released.
    pub fn new() -> (keyboard: Keyboard)
        ensures
            keyboard@ =~= Seq::new(16, |k: int| false),
    {
        Keyboard { keys: [false; 16] }
    }

    /// Whether `key` is currently held down.
    pub fn is_key_pressed(&self, key: usize) -> (pressed: bool)
        requires
            key < 16,
        ensures
            self@.len() == 16,
            pressed == self@[key as int],
    {
        self.keys[key]
    }

    /// Records that `key` was pressed or released; the other keys keep their state.
    pub fn set_key(&mut self, key: usize, pressed: bool)
        requires
            key < 16,
        ensures
            final(self)@ == old(self)@.update(key as int, pressed),
            final(self)@.len() == 16,
    {
        self.keys[key] = pressed;
    }

    /// The lowest pressed key, or `None` while every key is released.
    pub fn wait_for_key_press(&self) -> (key: Option<usize>)
        ensures
            self@.len() == 16,
            match key {
                Some(k) => is_lowest_pressed(self@, k as int) && lowest_pressed(self@) == Some(k as int),
                None => lowest_pressed(self@) is None && forall|k: int| 0 <= k < 16 ==> !self@[k],
            },
    {
        let mut k: usize = 0;
        while k < 16
            invariant
                k <= 16,
                forall|j: int| 0 <= j < k ==> !self.keys@[j],
            decreases 16 - k,
        {
            if self.keys[k] {
                proof {
                    lemma_lowest_pressed_unique(self@, k as int);
                }
                return Some(k);
            }
            k += 1;
        }
        proof {
            if lowest_pressed(self@) is Some {
                lemma_lowest_pressed(self@);
            }
        }
        None
    }
}

} // verus!
