//! Which keys are held, and which went down since the pressed-this-frame set was last cleared.
use vstd::prelude::*;
use std::collections::HashSet;

verus! {

broadcast use vstd::std_specs::hash::group_hash_axioms;

/// A key, identified by its code.
pub type KeyCode = u32;

/// The keyboard state: the keys held down, and the keys that went down this frame.
#[derive(Debug)]
pub struct Keyboard {
    pub pressed: HashSet<KeyCode>,
    pub just_pressed: HashSet<KeyCode>,
}

impl Keyboard {
    /// No key held or pressed.
    pub fn new() -> (k: Keyboard)
        ensures
            k.pressed@ == Set::<KeyCode>::empty(),
            k.just_pressed@ == Set::<KeyCode>::empty(),
    {
        Keyboard { pressed: HashSet::new(), just_pressed: HashSet::new() }
    }

    /// The key goes down; it counts as pressed this frame unless it was already held.
    pub fn press(&mut self, key: KeyCode)
        ensures
            final(self).pressed@ == old(self).pressed@.insert(key),
            final(self).just_pressed@ == if old(self).pressed@.contains(key) {
                old(self).just_pressed@
            } else {
                old(self).just_pressed@.insert(key)
            },
    {
        if self.pressed.insert(key) {
            self.just_pressed.insert(key);
        }
    }

    /// The key goes up.
    pub fn release(&mut self, key: KeyCode)
        ensures
            final(self).pressed@ == old(self).pressed@.remove(key),
            final(self).just_pressed@ == old(self).just_pressed@,
    {
        self.pressed.remove(&key);
    }

    /// Whether the key is held.
    pub fn is_pressed(&self, key: KeyCode) -> (r: bool)
        ensures
            r == self.pressed@.contains(key),
    {
        self.pressed.contains(&key)
    }

    /// Whether the key went down this frame.
    pub fn just_pressed(&self, key: KeyCode) -> (r: bool)
        ensures
            r == self.just_pressed@.contains(key),
    {
        self.just_pressed.contains(&key)
    }

    /// Starts a new frame: no key counts as pressed this frame any more.
    pub fn clear_just_pressed(&mut self)
        ensures
            final(self).pressed@ == old(self).pressed@,
            final(self).just_pressed@ == Set::<KeyCode>::empty(),
    {
        self.just_pressed.clear();
    }
}

impl Default for Keyboard {
    fn default() -> (k: Keyboard)
        ensures
            k.pressed@ == Set::<KeyCode>::empty(),
            k.just_pressed@ == Set::<KeyCode>::empty(),
    {
        Keyboard::new()
    }
}

/// A key that goes down while not held counts as pressed this frame and is held; pressing it
/// again while held does not make it pressed this frame again once the frame was cleared.
pub proof fn lemma_press_once(k0: Keyboard, k1: Keyboard, k2: Keyboard, k3: Keyboard, key: KeyCode)
    requires
        !k0.pressed@.contains(key),
        k1.pressed@ == k0.pressed@.insert(key),
        k1.just_pressed@ == k0.just_pressed@.insert(key),
        k2.pressed@ == k1.pressed@,
        k2.just_pressed@ == Set::<KeyCode>::empty(),
        k3.pressed@ == k2.pressed@.insert(key),
        k3.just_pressed@ == if k2.pressed@.contains(key) {
            k2.just_pressed@
        } else {
            k2.just_pressed@.insert(key)
        },
    ensures
        k1.pressed@.contains(key),
        k1.just_pressed@.contains(key),
        k3.pressed@.contains(key),
        !k3.just_pressed@.contains(key),
{
}

} // verus!
