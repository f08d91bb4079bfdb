use std::collections::HashSet;
use vstd::prelude::*;

verus! {

broadcast use vstd::std_specs::hash::group_hash_axioms;

/// A copy of a set of key codes, built key by key.
fn copy_keys(keys: &HashSet<u32>) -> (copy: HashSet<u32>)
    ensures
        copy@ == keys@,
{
    let mut copy: HashSet<u32> = HashSet::new();
    for k in it: keys.iter()
        invariant
            copy@ == it.seq().take(it.index() as int).unref().to_set(),
            it.seq().unref().to_set() == keys@,
            it.index() == it.seq().len() ==> copy@ == keys@,
    {
        let ghost before = it.seq().take(it.index() as int).unref();
        copy.insert(*k);
        assert(it.seq().take(it.index() + 1).unref() =~= before.push(*k));
        proof {
            before.lemma_push_to_set_commute(*k);
        }
        assert(it.index() + 1 == it.seq().len() ==> it.seq().take(it.index() + 1) =~= it.seq());
    }
    copy
}

/// The keys held down in this frame and in the one before, by key code.
pub struct InputManager {
    current_keys: HashSet<u32>,
    previous_keys: HashSet<u32>,
}

impl InputManager {
    /// The keys held down now.
    pub closed spec fn held(&self) -> Set<u32> {
        self.current_keys@
    }

    /// The keys that were held down at the start of the frame.
    pub closed spec fn held_before(&self) -> Set<u32> {
        self.previous_keys@
    }

    /// No key held, now or before.
    pub fn new() -> (m: Self)
        ensures
            m.held() == Set::<u32>::empty(),
            m.held_before() == Set::<u32>::empty(),
    {
        Self { current_keys: HashSet::new(), previous_keys: HashSet::new() }
    }

    /// Starts a frame: the keys held now become the keys held before.
    pub fn tick(&mut self)
        ensures
            final(self).held() == old(self).held(),
            final(self).held_before() == old(self).held(),
    {
        self.previous_keys = copy_keys(&self.current_keys);
    }

    /// Records a key going down (`pressed`) or up.
    pub fn update_key(&mut self, key: u32, pressed: bool)
        ensures
            final(self).held() == if pressed {
                old(self).held().insert(key)
            } else {
                old(self).held().remove(key)
            },
            final(self).held_before() == old(self).held_before(),
    {
        if pressed {
            self.current_keys.insert(key);
        } else {
            self.current_keys.remove(&key);
        }
    }

    /// Whether the key is held down now.
    pub fn is_down(&self, key: u32) -> (b: bool)
        ensures
            b == self.held().contains(key),
    {
        self.current_keys.contains(&key)
    }

    /// Whether the key went down in this frame.
    pub fn was_pressed(&self, key: u32) -> (b: bool)
        ensures
            b == (self.held().contains(key) && !self.held_before().contains(key)),
    {
        self.current_keys.contains(&key) && !self.previous_keys.contains(&key)
    }

    /// Whether the key went up in this frame.
    pub fn was_released(&self, key: u32) -> (b: bool)
        ensures
            b == (!self.held().contains(key) && self.held_before().contains(key)),
    {
        !self.current_keys.contains(&key) && self.previous_keys.contains(&key)
    }

    /// The keys held down now.
    pub fn keys(&self) -> (k: &HashSet<u32>)
        ensures
            k@ == self.held(),
    {
        &self.current_keys
    }
}

/// A key cannot both go down and go up in one frame; going down means it is
/// held, going up means it is not.
pub proof fn lemma_press_release_exclusive(m: InputManager, key: u32)
    ensures
        (m.held().contains(key) && !m.held_before().contains(key)) ==> m.held().contains(key),
        (!m.held().contains(key) && m.held_before().contains(key)) ==> !m.held().contains(key),
        !((m.held().contains(key) && !m.held_before().contains(key)) && (!m.held().contains(key)
            && m.held_before().contains(key))),
{
}


/// Right after a frame starts no key has gone down or up yet.
pub proof fn lemma_tick_clears_edges(m: InputManager, key: u32)
    requires
        m.held_before() == m.held(),
    ensures
        !(m.held().contains(key) && !m.held_before().contains(key)),
        !(!m.held().contains(key) && m.held_before().contains(key)),
{
}

} // verus!
