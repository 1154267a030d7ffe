//! Keyboard input of the standalone engine: held keys and keys pressed this frame.
use vstd::prelude::*;
use std::collections::HashSet;
use crate::input::keyboard::KeyCode;

verus! {

broadcast use vstd::std_specs::hash::group_hash_axioms;

/// One input to a keyboard.
pub enum KeyEvent {
    /// The key goes down.
    Press(KeyCode),
    /// The key goes up.
    Release(KeyCode),
    /// A new frame starts.
    Clear,
}

/// The held keys and the keys pressed this frame, after `e` happened to a keyboard in `state`.
pub open spec fn key_step(state: (Set<KeyCode>, Set<KeyCode>), e: KeyEvent) -> (
    Set<KeyCode>,
    Set<KeyCode>,
) {
    match e {
        KeyEvent::Press(k) => (
            state.0.insert(k),
            if state.0.contains(k) {
                state.1
            } else {
                state.1.insert(k)
            },
        ),
        KeyEvent::Release(k) => (state.0.remove(k), state.1),
        KeyEvent::Clear => (state.0, Set::empty()),
    }
}

/// The held keys and the keys pressed this frame of a new keyboard after the events.
pub open spec fn replay(events: Seq<KeyEvent>) -> (Set<KeyCode>, Set<KeyCode>)
    decreases events.len(),
{
    if events.len() == 0 {
        (Set::empty(), Set::empty())
    } else {
        key_step(replay(events.drop_last()), events.last())
    }
}

/// Since the last clear, `k` went down at a moment it was not held.
pub open spec fn pressed_since_clear(events: Seq<KeyEvent>, k: KeyCode) -> bool {
    exists|i: int|
        0 <= i < events.len() && events[i] == KeyEvent::Press(k) && !(#[trigger] replay(
            events.take(i),
        )).0.contains(k) && forall|j: int| i < j < events.len() ==> events[j] != KeyEvent::Clear
}

/// A keyboard input handler.
#[derive(Debug)]
pub struct Keyboard {
    pressed: HashSet<KeyCode>,
    just_pressed: HashSet<KeyCode>,
}

impl Keyboard {
    /// The keys held down.
    pub closed spec fn held(&self) -> Set<KeyCode> {
        self.pressed@
    }

    /// The keys that went down this frame.
    pub closed spec fn pressed_this_frame(&self) -> Set<KeyCode> {
        self.just_pressed@
    }

    /// No key held or pressed.
    pub fn new() -> (k: Keyboard)
        ensures
            k.held() == Set::<KeyCode>::empty(),
            k.pressed_this_frame() == Set::<KeyCode>::empty(),
            (k.held(), k.pressed_this_frame()) == replay(Seq::empty()),
    {
        Keyboard { pressed: HashSet::new(), just_pressed: HashSet::new() }
    }

    /// The key goes down; it counts as pressed this frame unless it was already held.
    pub fn press(&mut self, key: KeyCode)
        ensures
            final(self).held() == old(self).held().insert(key),
            final(self).pressed_this_frame() == if old(self).held().contains(key) {
                old(self).pressed_this_frame()
            } else {
                old(self).pressed_this_frame().insert(key)
            },
            (final(self).held(), final(self).pressed_this_frame()) == key_step(
                (old(self).held(), old(self).pressed_this_frame()),
                KeyEvent::Press(key),
            ),
    {
        if self.pressed.insert(key) {
            self.just_pressed.insert(key);
        }
    }

    /// The key goes up.
    pub fn release(&mut self, key: KeyCode)
        ensures
            final(self).held() == old(self).held().remove(key),
            final(self).pressed_this_frame() == old(self).pressed_this_frame(),
            (final(self).held(), final(self).pressed_this_frame()) == key_step(
                (old(self).held(), old(self).pressed_this_frame()),
                KeyEvent::Release(key),
            ),
    {
        self.pressed.remove(&key);
    }

    /// Whether the key is held.
    pub fn is_pressed(&self, key: KeyCode) -> (r: bool)
        ensures
            r == self.held().contains(key),
    {
        self.pressed.contains(&key)
    }

    /// Whether the key went down this frame.
    pub fn just_pressed(&self, key: KeyCode) -> (r: bool)
        ensures
            r == self.pressed_this_frame().contains(key),
    {
        self.just_pressed.contains(&key)
    }

    /// Starts a new frame: no key counts as pressed this frame any more.
    pub fn clear(&mut self)
        ensures
            final(self).held() == old(self).held(),
            final(self).pressed_this_frame() == Set::<KeyCode>::empty(),
            (final(self).held(), final(self).pressed_this_frame()) == key_step(
                (old(self).held(), old(self).pressed_this_frame()),
                KeyEvent::Clear,
            ),
    {
        self.just_pressed.clear();
    }
}

impl Default for Keyboard {
    fn default() -> (k: Keyboard)
        ensures
            k.held() == Set::<KeyCode>::empty(),
            k.pressed_this_frame() == Set::<KeyCode>::empty(),
    {
        Keyboard::new()
    }
}

/// After any sequence of presses, releases and clears from a new keyboard, a key counts as
/// pressed this frame exactly when, since the last clear, it went down while it was not held.
pub proof fn lemma_just_pressed_history(events: Seq<KeyEvent>, k: KeyCode)
    ensures
        replay(events).1.contains(k) <==> pressed_since_clear(events, k),
    decreases events.len(),
{
    if events.len() > 0 {
        let init = events.drop_last();
        let n = events.len() - 1;
        let e = events.last();
        lemma_just_pressed_history(init, k);
        assert(events.take(n) =~= init);
        assert forall|i: int| 0 <= i < n implies #[trigger] events.take(i) == init.take(i) by {
            assert(events.take(i) =~= init.take(i));
        }
        if pressed_since_clear(init, k) && e != KeyEvent::Clear {
            let i = choose|i: int|
                0 <= i < init.len() && init[i] == KeyEvent::Press(k) && !(#[trigger] replay(
                    init.take(i),
                )).0.contains(k) && forall|j: int| i < j < init.len() ==> init[j] != KeyEvent::Clear;
            assert(events.take(i) == init.take(i));
            assert forall|j: int| i < j < events.len() implies events[j] != KeyEvent::Clear by {
                if j < n {
                    assert(events[j] == init[j]);
                }
            }
            assert(pressed_since_clear(events, k));
        }
        if pressed_since_clear(events, k) {
            let i = choose|i: int|
                0 <= i < events.len() && events[i] == KeyEvent::Press(k) && !(#[trigger] replay(
                    events.take(i),
                )).0.contains(k) && forall|j: int| i < j < events.len() ==> events[j] != KeyEvent::Clear;
            if i < n {
                assert(events.take(i) == init.take(i));
                assert(init[i] == events[i]);
                assert(forall|j: int| i < j < init.len() ==> init[j] == events[j]);
                assert(pressed_since_clear(init, k));
                assert(e != KeyEvent::Clear);
            } else {
                assert(e == KeyEvent::Press(k));
                assert(!replay(init).0.contains(k));
            }
        }
        if e == KeyEvent::Press(k) && !replay(init).0.contains(k) {
            assert(events.take(n) == init);
            assert(pressed_since_clear(events, k));
        }
    }
}

} // verus!
