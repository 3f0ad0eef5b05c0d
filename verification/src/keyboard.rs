//! The 16-key input device. An external driver records presses and
//! releases; the interpreter only ever reads the flags.

use vstd::prelude::*;

verus! {

/// Number of logical keys.
pub const NUM_KEYS: usize = 16;

pub struct Keyboard {
    /// One flag per logical key 0x0-0xF: true while the key is down.
    pub state: Vec<bool>,
}

/// The lowest pressed key at or above index `i`, if any.
pub open spec fn first_pressed_from(keys: Seq<bool>, i: int) -> Option<int>
    decreases NUM_KEYS - i,
{
    if i < 0 || i >= NUM_KEYS {
        None
    } else if keys[i] {
        Some(i)
    } else {
        first_pressed_from(keys, i + 1)
    }
}

/// With no key down from `i` up, there is no first pressed key.
pub proof fn lemma_first_pressed_none(keys: Seq<bool>, i: int)
    requires
        0 <= i <= NUM_KEYS,
        forall|j: int| i <= j < NUM_KEYS ==> !keys[j],
    ensures
        first_pressed_from(keys, i) is None,
    decreases NUM_KEYS - i,
{
    if i < NUM_KEYS {
        lemma_first_pressed_none(keys, i + 1);
    }
}

/// With key `k` down and every key below it up, `k` is the first
/// pressed key.
pub proof fn lemma_first_pressed_some(keys: Seq<bool>, i: int, k: int)
    requires
        0 <= i <= k < NUM_KEYS,
        keys[k],
        forall|j: int| i <= j < k ==> !keys[j],
    ensures
        first_pressed_from(keys, i) == Some(k),
    decreases k - i,
{
    if i < k {
        lemma_first_pressed_some(keys, i + 1, k);
    }
}

impl Keyboard {
    pub open spec fn wf(self) -> bool {
        self.state@.len() == NUM_KEYS
    }

    /// All keys start released.
    pub fn new() -> (k: Keyboard)
        ensures
            k.wf(),
            forall|j: int| 0 <= j < NUM_KEYS ==> !k.state@[j],
    {
        let mut state: Vec<bool> = Vec::new();
        while state.len() < NUM_KEYS
            invariant
                state@.len() <= NUM_KEYS,
                forall|j: int| 0 <= j < state@.len() ==> !state@[j],
            decreases NUM_KEYS - state@.len(),
        {
            state.push(false);
        }
        Keyboard { state }
    }

    /// Marks a key as held down.
    pub fn pressed(&mut self, btn: usize)
        requires
            old(self).wf(),
            btn < NUM_KEYS,
        ensures
            final(self).wf(),
            final(self).state@ == old(self).state@.update(btn as int, true),
    {
        self.state.set(btn, true);
    }

    /// Marks a key as released.
    pub fn released(&mut self, btn: usize)
        requires
            old(self).wf(),
            btn < NUM_KEYS,
        ensures
            final(self).wf(),
            final(self).state@ == old(self).state@.update(btn as int, false),
    {
        self.state.set(btn, false);
    }

    /// Whether a key is currently held down.
    pub fn is_pressed(&self, btn: usize) -> (r: bool)
        requires
            self.wf(),
            btn < NUM_KEYS,
        ensures
            r == self.state@[btn as int],
    {
        self.state[btn]
    }

    /// The lowest-numbered key currently held down, if any.
    pub fn any_pressed(&self) -> (r: Option<usize>)
        requires
            self.wf(),
        ensures
            match r {
                Some(k) => k < NUM_KEYS && self.state@[k as int] && first_pressed_from(
                    self.state@,
                    0,
                ) == Some(k as int),
                None => first_pressed_from(self.state@, 0) is None && forall|j: int|
                    0 <= j < NUM_KEYS ==> !self.state@[j],
            },
    {
        let mut j: usize = 0;
        while j < NUM_KEYS
            invariant
                self.wf(),
                j <= NUM_KEYS,
                forall|t: int| 0 <= t < j ==> !self.state@[t],
                first_pressed_from(self.state@, 0) == first_pressed_from(self.state@, j as int),
            decreases NUM_KEYS - j,
        {
            if self.state[j] {
                return Some(j);
            }
            j = j + 1;
        }
        None
    }
}

} // verus!
