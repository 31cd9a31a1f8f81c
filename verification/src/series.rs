//! Bounded sample histories for the ground station's plots and in-flight command
//! tracking.

use vstd::prelude::*;

verus! {

/// The last `max_len` elements of `s` (all of `s` when it is no longer).
pub open spec fn keep_last<T>(s: Seq<T>, max_len: nat) -> Seq<T> {
    if s.len() > max_len {
        s.subrange(s.len() - max_len, s.len() as int)
    } else {
        s
    }
}

/// Appends `item` and then drops the oldest elements so that at most `max_len` remain.
pub fn push_bounded<T>(items: &mut Vec<T>, item: T, max_len: usize)
    ensures
        final(items)@ == keep_last(old(items)@.push(item), max_len as nat),
{
    items.push(item);
    let len = items.len();
    if len > max_len {
        let tail = items.split_off(len - max_len);
        *items = tail;
    }
}

/// A bounded history never exceeds its bound, always ends with the newest item, and
/// once full keeps its length.
pub proof fn lemma_keep_last_bounded<T>(s: Seq<T>, item: T, max_len: nat)
    requires
        max_len > 0,
    ensures
        keep_last(s.push(item), max_len).len() <= max_len,
        keep_last(s.push(item), max_len).last() == item,
        s.len() >= max_len ==> keep_last(s.push(item), max_len).len() == max_len,
        s.len() < max_len ==> keep_last(s.push(item), max_len) == s.push(item),
{
}

/// A bounded history keeps the newest elements, oldest first: it holds
/// `min(s.len(), max_len)` elements, and its `i`-th is element
/// `s.len() - min(s.len(), max_len) + i` of `s`.
pub proof fn lemma_keep_last_is_newest_suffix<T>(s: Seq<T>, max_len: nat)
    ensures
        keep_last(s, max_len).len() == if s.len() > max_len {
            max_len
        } else {
            s.len()
        },
        forall|i: int|
            0 <= i < keep_last(s, max_len).len() ==> #[trigger] keep_last(s, max_len)[i] == s[s.len()
                - keep_last(s, max_len).len() + i],
{
}

} // verus!
