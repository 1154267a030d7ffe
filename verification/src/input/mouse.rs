//! Which mouse buttons are held, and which went down this frame.
use vstd::prelude::*;
use std::collections::HashSet;

verus! {

broadcast use vstd::std_specs::hash::group_hash_axioms;

/// A mouse button, identified by its code.
pub type MouseButton = u32;

/// The mouse button state: the buttons held down, and the buttons that went down this frame.
#[derive(Debug)]
pub struct Mouse {
    pub pressed: HashSet<MouseButton>,
    pub just_pressed: HashSet<MouseButton>,
}

impl Mouse {
    /// No button held or pressed.
    pub fn new() -> (k: Mouse)
        ensures
            k.pressed@ == Set::<MouseButton>::empty(),
            k.just_pressed@ == Set::<MouseButton>::empty(),
    {
        Mouse { pressed: HashSet::new(), just_pressed: HashSet::new() }
    }

    /// The button goes down; it counts as pressed this frame unless it was already held.
    pub fn press(&mut self, button: MouseButton)
        ensures
            final(self).pressed@ == old(self).pressed@.insert(button),
            final(self).just_pressed@ == if old(self).pressed@.contains(button) {
                old(self).just_pressed@
            } else {
                old(self).just_pressed@.insert(button)
            },
    {
        if self.pressed.insert(button) {
            self.just_pressed.insert(button);
        }
    }

    /// The button goes up.
    pub fn release(&mut self, button: MouseButton)
        ensures
            final(self).pressed@ == old(self).pressed@.remove(button),
            final(self).just_pressed@ == old(self).just_pressed@,
    {
        self.pressed.remove(&button);
    }

    /// Whether the button is held.
    pub fn is_pressed(&self, button: MouseButton) -> (r: bool)
        ensures
            r == self.pressed@.contains(button),
    {
        self.pressed.contains(&button)
    }

    /// Whether the button went down this frame.
    pub fn just_pressed(&self, button: MouseButton) -> (r: bool)
        ensures
            r == self.just_pressed@.contains(button),
    {
        self.just_pressed.contains(&button)
    }

    /// Starts a new frame: no button counts as pressed this frame any more.
    pub fn clear_just_pressed(&mut self)
        ensures
            final(self).pressed@ == old(self).pressed@,
            final(self).just_pressed@ == Set::<MouseButton>::empty(),
    {
        self.just_pressed.clear();
    }
}

impl Default for Mouse {
    fn default() -> (k: Mouse)
        ensures
            k.pressed@ == Set::<MouseButton>::empty(),
            k.just_pressed@ == Set::<MouseButton>::empty(),
    {
        Mouse::new()
    }
}

/// A button that goes down while not held counts as pressed this frame and is held; pressing it
/// again while held does not make it pressed this frame again once the frame was cleared.
pub proof fn lemma_click_once(k0: Mouse, k1: Mouse, k2: Mouse, k3: Mouse, button: MouseButton)
    requires
        !k0.pressed@.contains(button),
        k1.pressed@ == k0.pressed@.insert(button),
        k1.just_pressed@ == k0.just_pressed@.insert(button),
        k2.pressed@ == k1.pressed@,
        k2.just_pressed@ == Set::<MouseButton>::empty(),
        k3.pressed@ == k2.pressed@.insert(button),
        k3.just_pressed@ == if k2.pressed@.contains(button) {
            k2.just_pressed@
        } else {
            k2.just_pressed@.insert(button)
        },
    ensures
        k1.pressed@.contains(button),
        k1.just_pressed@.contains(button),
        k3.pressed@.contains(button),
        !k3.just_pressed@.contains(button),
{
}

} // verus!
