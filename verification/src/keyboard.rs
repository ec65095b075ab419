//! The keyboard state: the keys that the display sink last reported as
//! pressed, as the program sees them in the mapped region.

use crate::KMAP_SIZE;
use vstd::prelude::*;

verus! {

/// Value of a keyboard slot that holds no key.
pub const KEY_PAD: u8 = 0;

/// The keyboard bytes of the mapped region.
#[derive(Clone, Copy, Debug, PartialEq, Eq)]
pub struct KeyMap {
    pub keys: [u8; KMAP_SIZE],
}

/// The keyboard bytes for a snapshot of pressed keys: its first `KMAP_SIZE`
/// key codes in their order, then `KEY_PAD` in every slot that is left.
pub open spec fn refreshed(snapshot: Seq<u8>) -> Seq<u8> {
    Seq::new(
        KMAP_SIZE as nat,
        |i: int|
            if i < snapshot.len() {
                snapshot[i]
            } else {
                KEY_PAD
            },
    )
}

impl KeyMap {
    /// A keyboard with no key pressed.
    pub fn new() -> (map: KeyMap)
        ensures
            map.keys@ == refreshed(Seq::empty()),
    {
        let map = KeyMap { keys: [KEY_PAD;KMAP_SIZE] };
        assert(map.keys@ =~= refreshed(Seq::empty()));
        map
    }

    /// Takes over the display sink's snapshot of pressed keys. Where the
    /// sink gave none, the keys stay as they are.
    pub fn update(&mut self, snapshot: &Option<Vec<u8>>)
        ensures
            final(self).keys@ == (match *snapshot {
                Some(keys) => refreshed(keys@),
                None => old(self).keys@,
            }),
    {
        if let Some(keys) = snapshot {
            let n: usize = keys.len();
            let mut i: usize = 0;
            while i < KMAP_SIZE
                invariant
                    i <= KMAP_SIZE,
                    n == keys@.len(),
                    forall|j: int| 0 <= j < i ==> self.keys@[j] == refreshed(keys@)[j],
                decreases KMAP_SIZE - i,
            {
                if i < n {
                    self.keys[i] = keys[i];
                } else {
                    self.keys[i] = KEY_PAD;
                }
                i = i + 1;
            }
            assert(self.keys@ =~= refreshed(keys@));
        }
    }
}

/// After a refresh from a snapshot of `k` keys, `k` at most `KMAP_SIZE`, the
/// first `k` keyboard bytes are the snapshot's key codes in its order and
/// every byte after them is `KEY_PAD`.
pub proof fn lemma_refresh(snapshot: Seq<u8>)
    requires
        snapshot.len() <= KMAP_SIZE,
    ensures
        refreshed(snapshot).len() == KMAP_SIZE,
        refreshed(snapshot).subrange(0, snapshot.len() as int) == snapshot,
        forall|i: int| snapshot.len() <= i < KMAP_SIZE ==> refreshed(snapshot)[i] == KEY_PAD,
{
}

} // verus!
