use vstd::prelude::*;

verus! {

/// Remembers the key held down last, if any.
pub struct KeyIndicator<K> {
    pub last_key: Option<K>,
}

impl<K> KeyIndicator<K> {
    /// No key yet.
    pub fn new() -> (k: Self)
        ensures
            k.last_key is None,
    {
        Self { last_key: None }
    }

    /// A key went down (`pressed`) or up: a press shows that key, a release
    /// shows none.
    pub fn update(&mut self, key: K, pressed: bool)
        ensures
            final(self).last_key == if pressed {
                Some(key)
            } else {
                None
            },
    {
        if pressed {
            self.last_key = Some(key);
        } else {
            self.last_key = None;
        }
    }
}

} // verus!
