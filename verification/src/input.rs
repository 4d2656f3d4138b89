//! Keyboard state, updated from the window system's key events.
//!
//! The engine distinguishes keys that went down this frame (`pressed`),
//! keys currently held, and keys that went up this frame (`released`).
//! Key repeats from the window system are filtered out: a key already
//! held does not register as pressed again. Keys are carried as plain
//! key codes; translating the window system's events into them happens
//! outside this crate.

use vstd::prelude::*;

verus! {

/// The keyboard as the engine sees it between two key events.
#[derive(Debug)]
pub struct Keyboard {
    pressed_keys: Vec<u32>,
    held_keys: Vec<u32>,
    released_keys: Vec<u32>,
}

impl Keyboard {
    /// The keys that went down on the latest key event.
    pub closed spec fn pressed(&self) -> Set<u32> {
        self.pressed_keys@.to_set()
    }

    /// The keys currently held down.
    pub closed spec fn held(&self) -> Set<u32> {
        self.held_keys@.to_set()
    }

    /// The keys that went up on the latest key event.
    pub closed spec fn released(&self) -> Set<u32> {
        self.released_keys@.to_set()
    }

    /// A keyboard with no key pressed, held or released.
    pub fn new() -> (kb: Keyboard)
        ensures
            kb.pressed() == Set::<u32>::empty(),
            kb.held() == Set::<u32>::empty(),
            kb.released() == Set::<u32>::empty(),
    {
        let kb = Keyboard { pressed_keys: Vec::new(), held_keys: Vec::new(), released_keys: Vec::new() };
        proof {
            assert(kb.pressed() =~= Set::<u32>::empty());
            assert(kb.held() =~= Set::<u32>::empty());
            assert(kb.released() =~= Set::<u32>::empty());
        }
        kb
    }

    /// Takes one key event into account. A key going down while not yet
    /// held registers as pressed and held; one going down while already
    /// held is a repeat and registers nothing. A key going up leaves the
    /// held keys and registers as released. Pressed and released keys
    /// carry over only from this event.
    pub fn update_with_input(&mut self, keycode: u32, pressed: bool)
        ensures
            pressed && !old(self).held().contains(keycode) ==> {
                &&& final(self).pressed() == Set::<u32>::empty().insert(keycode)
                &&& final(self).held() == old(self).held().insert(keycode)
                &&& final(self).released() == Set::<u32>::empty()
            },
            pressed && old(self).held().contains(keycode) ==> {
                &&& final(self).pressed() == Set::<u32>::empty()
                &&& final(self).held() == old(self).held()
                &&& final(self).released() == Set::<u32>::empty()
            },
            !pressed ==> {
                &&& final(self).pressed() == Set::<u32>::empty()
                &&& final(self).held() == old(self).held().remove(keycode)
                &&& final(self).released() == Set::<u32>::empty().insert(keycode)
            },
    {
        self.pressed_keys = Vec::new();
        self.released_keys = Vec::new();
        proof {
            assert(self.pressed() =~= Set::<u32>::empty());
            assert(self.released() =~= Set::<u32>::empty());
        }
        if pressed {
            if !contains_key(&self.held_keys, keycode) {
                let ghost held_pre = self.held_keys@;
                self.pressed_keys.push(keycode);
                self.held_keys.push(keycode);
                proof {
                    assert(self.pressed_keys@ =~= Seq::<u32>::empty().push(keycode));
                    assert(self.pressed_keys@[0] == keycode);
                    assert(self.pressed_keys@.contains(keycode));
                    assert(self.pressed() =~= Set::<u32>::empty().insert(keycode));
                    assert(self.held_keys@.drop_last() =~= held_pre);
                    assert(self.held() =~= held_pre.to_set().insert(keycode)) by {
                        assert forall|x: u32| self.held_keys@.to_set().contains(x) implies
                            held_pre.to_set().insert(keycode).contains(x) by {
                            let m = choose|m: int|
                                0 <= m < self.held_keys@.len() && (#[trigger] self.held_keys@[m])
                                    == x;
                            if m < held_pre.len() {
                                assert(held_pre[m] == x);
                            }
                        }
                        assert forall|x: u32| held_pre.to_set().insert(keycode).contains(x)
                            implies self.held_keys@.to_set().contains(x) by {
                            if x == keycode {
                                assert(self.held_keys@[self.held_keys@.len() - 1] == x);
                            } else {
                                let m = choose|m: int|
                                    0 <= m < held_pre.len() && (#[trigger] held_pre[m]) == x;
                                assert(self.held_keys@[m] == x);
                            }
                        }
                    }
                }
            }
        } else {
            remove_key(&mut self.held_keys, keycode);
            self.released_keys.push(keycode);
            proof {
                assert(self.released_keys@ =~= Seq::<u32>::empty().push(keycode));
                assert(self.released_keys@[0] == keycode);
                assert(self.released_keys@.contains(keycode));
                assert(self.released() =~= Set::<u32>::empty().insert(keycode));
            }
        }
    }

    /// Whether the key went down on the latest key event.
    pub fn key_pressed(&self, keycode: u32) -> (r: bool)
        ensures
            r == self.pressed().contains(keycode),
    {
        contains_key(&self.pressed_keys, keycode)
    }

    /// Whether the key is currently held down.
    pub fn key_down(&self, keycode: u32) -> (r: bool)
        ensures
            r == self.held().contains(keycode),
    {
        contains_key(&self.held_keys, keycode)
    }

    /// Whether the key went up on the latest key event.
    pub fn key_released(&self, keycode: u32) -> (r: bool)
        ensures
            r == self.released().contains(keycode),
    {
        contains_key(&self.released_keys, keycode)
    }
}

/// Whether a key code occurs in a vector of key codes.
fn contains_key(v: &Vec<u32>, keycode: u32) -> (r: bool)
    ensures
        r == v@.to_set().contains(keycode),
{
    let n = v.len();
    let mut i: usize = 0;
    while i < n
        invariant
            n == v@.len(),
            i <= n,
            forall|m: int| 0 <= m < i ==> (#[trigger] v@[m]) != keycode,
        decreases n - i,
    {
        if v[i] == keycode {
            proof {
                assert(v@.to_set().contains(keycode));
            }
            return true;
        }
        i = i + 1;
    }
    proof {
        assert(!v@.contains(keycode));
    }
    false
}

/// Removes every occurrence of a key code from a vector of key codes.
fn remove_key(v: &mut Vec<u32>, keycode: u32)
    ensures
        final(v)@.to_set() == old(v)@.to_set().remove(keycode),
{
    let n = v.len();
    let mut out: Vec<u32> = Vec::new();
    let mut i: usize = 0;
    while i < n
        invariant
            n == v@.len(),
            i <= n,
            forall|x: u32|
                #[trigger] out@.to_set().contains(x) <==> (v@.take(i as int).to_set().contains(x)
                    && x != keycode),
        decreases n - i,
    {
        let x = v[i];
        let ghost out_pre = out@;
        if x != keycode {
            out.push(x);
        }
        proof {
            assert(v@.take(i + 1).drop_last() =~= v@.take(i as int));
            assert(v@.take(i + 1).last() == v@[i as int]);
            assert forall|y: u32| #[trigger] out@.to_set().contains(y) implies (v@.take(
                i + 1,
            ).to_set().contains(y) && y != keycode) by {
                let m = choose|m: int| 0 <= m < out@.len() && (#[trigger] out@[m]) == y;
                if m < out_pre.len() {
                    assert(out_pre[m] == y);
                    assert(out_pre.to_set().contains(y));
                    let w = choose|w: int|
                        0 <= w < i && (#[trigger] v@.take(i as int)[w]) == y;
                    assert(v@.take(i + 1)[w] == y);
                } else {
                    assert(y == x);
                    assert(v@.take(i + 1)[i as int] == y);
                }
            }
            assert forall|y: u32| v@.take(i + 1).to_set().contains(y) && y != keycode implies
                #[trigger] out@.to_set().contains(y) by {
                let m = choose|m: int| 0 <= m < i + 1 && (#[trigger] v@.take(i + 1)[m]) == y;
                if m < i {
                    assert(v@.take(i as int)[m] == y);
                    assert(v@.take(i as int).to_set().contains(y));
                    assert(out_pre.to_set().contains(y));
                    if out@ != out_pre {
                        let w = choose|w: int|
                            0 <= w < out_pre.len() && (#[trigger] out_pre[w]) == y;
                        assert(out@[w] == y);
                    }
                } else {
                    assert(y == x);
                    assert(out@[out@.len() - 1] == y);
                }
            }
        }
        i = i + 1;
    }
    proof {
        assert(v@.take(n as int) =~= v@);
    }
    *v = out;
    proof {
        assert(v@.to_set() =~= old(v)@.to_set().remove(keycode));
    }
}

} // verus!
