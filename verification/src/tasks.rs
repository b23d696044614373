//! The periodic reclamation of expired entries.

use vstd::prelude::*;
use crate::registry::{as_ints, expired_keys, swept};
use crate::state::AppState;
use crate::time::Timestamp;

verus! {

/// The seconds between two ticks of the reclamation.
pub const CLEANUP_PERIOD_SECS: u64 = 1;

/// One tick of the reclamation: removes every entry that has expired at `now`
/// and returns the keys that it freed, each once, in no particular order.
/// Entries that are live stay as they are. The number of keys returned is the
/// number of entries removed.
pub fn cleanup_expired_domains(state: &mut AppState, now: Timestamp) -> (removed: Vec<i32>)
    ensures
        final(state)@ == swept(old(state)@, now@),
        as_ints(removed@).no_duplicates(),
        as_ints(removed@).to_set() == expired_keys(old(state)@, now@),
        removed.len() == old(state)@.len() - final(state)@.len(),
{
    let removed = state.expired(now);
    let ghost keys = as_ints(removed@);
    let mut done: usize = 0;
    while done < removed.len()
        invariant
            done <= removed.len(),
            keys == as_ints(removed@),
            state@ == old(state)@.remove_keys(keys.take(done as int).to_set()),
        decreases removed.len() - done,
    {
        state.remove(removed[done]);
        proof {
            let before = keys.take(done as int);
            let after = keys.take(done + 1);
            assert(after =~= before.push(keys[done as int]));
            assert(after.to_set() =~= before.to_set().insert(keys[done as int])) by {
                assert forall|key: int| before.to_set().insert(keys[done as int]).contains(
                    key,
                ) implies after.to_set().contains(key) by {
                    if key == keys[done as int] {
                        assert(after[done as int] == key);
                    } else {
                        let j = choose|j: int| 0 <= j < before.len() && before[j] == key;
                        assert(after[j] == key);
                    }
                }
            }
            assert(state@ =~= old(state)@.remove_keys(after.to_set()));
        }
        done += 1;
    }
    proof {
        assert(keys.take(removed.len() as int) =~= keys);
        keys.unique_seq_to_set();
        old(state).lemma_finite();
        old(state)@.lemma_remove_keys_len(expired_keys(old(state)@, now@));
    }
    removed
}

} // verus!
