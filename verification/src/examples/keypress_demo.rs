use vstd::prelude::*;

verus! {

/// How many key presses the history keeps.
pub const HISTORY_LIMIT: usize = 10;

/// The history after a press of `key`: the key is added at the end, and the
/// oldest entry leaves once more than ten are kept.
pub open spec fn after_press<K>(history: Seq<K>, key: K) -> Seq<K> {
    let grown = history.push(key);
    if grown.len() > HISTORY_LIMIT {
        grown.subrange(1, grown.len() as int)
    } else {
        grown
    }
}

/// The last keys pressed, oldest first.
pub struct KeyPressDemo<K> {
    pub history: Vec<K>,
}

impl<K> KeyPressDemo<K> {
    /// An empty history.
    pub fn new() -> (d: Self)
        ensures
            d.history@.len() == 0,
    {
        Self { history: Vec::new() }
    }

    /// Records a key event: a press joins the history, a release does not.
    pub fn handle_key(&mut self, key: K, pressed: bool)
        ensures
            final(self).history@ == if pressed {
                after_press(old(self).history@, key)
            } else {
                old(self).history@
            },
            !pressed ==> final(self).history@ == old(self).history@,
            pressed && old(self).history@.len() < 10 ==> final(self).history@ == old(
                self,
            ).history@.push(key),
            pressed && old(self).history@.len() >= 10 ==> final(self).history@ == old(
                self,
            ).history@.subrange(1, old(self).history@.len() as int).push(key),
    {
        if pressed {
            self.history.push(key);
            if self.history.len() > HISTORY_LIMIT {
                self.history.remove(0);
            }
        }
    }
}

/// The history never holds more than ten keys, and the newest key is last.
/// A press on a full history of ten drops the oldest key and keeps the other
/// nine in order; on a shorter one it only adds the key.
pub proof fn lemma_history_bounded<K>(history: Seq<K>, key: K)
    requires
        history.len() <= 10,
    ensures
        after_press(history, key).len() <= 10,
        after_press(history, key).last() == key,
        after_press(history, key).len() >= 1,
        history.len() < 10 ==> after_press(history, key) == history.push(key),
        history.len() == 10 ==> after_press(history, key).len() == 10 && forall|i: int|
            0 <= i < 9 ==> #[trigger] after_press(history, key)[i] == history[i + 1],
{
}

} // verus!
