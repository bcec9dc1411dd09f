//! The mash-trigger flag: a flag that is true exactly while every key bound
//! as a mash trigger is physically held (and false when no key is bound as
//! one). The engine recomputes it after every transition of a mash-trigger
//! key and reports each flip as an edge notification, so an external
//! automation loop can start and stop synthesizing rapid presses.

use vstd::prelude::*;

use crate::types::{has_key, key_index, keys_after, keys_wf, ActionKind, KeyBinding};

verus! {

/// Whether an action marks its key as part of the mash-trigger set.
pub open spec fn is_mash(a: ActionKind) -> bool {
    match a {
        ActionKind::MashTrigger { .. } => true,
        _ => false,
    }
}

/// Some key is bound as a mash trigger.
pub open spec fn has_mash(keys: Seq<KeyBinding>) -> bool {
    exists|i: int| 0 <= i < keys.len() && is_mash((#[trigger] keys[i]).action)
}

/// Every key bound as a mash trigger is physically held.
pub open spec fn all_mash_pressed(keys: Seq<KeyBinding>) -> bool {
    forall|i: int|
        0 <= i < keys.len() && is_mash((#[trigger] keys[i]).action) ==> keys[i].is_pressed
}

/// The masher flag: true exactly while the mash-trigger set is nonempty and every
/// key in it is physically held.
pub open spec fn mash_active(keys: Seq<KeyBinding>) -> bool {
    has_mash(keys) && all_mash_pressed(keys)
}

/// Recomputes the masher flag from the key table.
pub fn compute_mash_active(keys: &Vec<KeyBinding>) -> (r: bool)
    ensures
        r == mash_active(keys@),
{
    let mut found: bool = false;
    let mut all: bool = true;
    let mut i: usize = 0;
    while i < keys.len()
        invariant
            i <= keys@.len(),
            found == exists|k: int| 0 <= k < i && is_mash((#[trigger] keys@[k]).action),
            all == forall|k: int|
                0 <= k < i && is_mash((#[trigger] keys@[k]).action) ==> keys@[k].is_pressed,
        decreases keys@.len() - i,
    {
        let e = keys[i];
        match e.action {
            ActionKind::MashTrigger { .. } => {
                found = true;
                if !e.is_pressed {
                    all = false;
                }
            },
            _ => {},
        }
        i = i + 1;
    }
    found && all
}

/// A transition of a key that is not bound as a mash trigger (or not bound
/// at all) leaves the masher flag unchanged.
pub proof fn lemma_mash_active_unchanged(keys: Seq<KeyBinding>, key: u32, pressed: bool)
    requires
        keys_wf(keys),
        has_key(keys, key) ==> !is_mash(keys[key_index(keys, key)].action),
    ensures
        mash_active(keys_after(keys, key, pressed)) == mash_active(keys),
{
    if has_key(keys, key) {
        let i = key_index(keys, key);
        let q = keys_after(keys, key, pressed);
        assert(forall|k: int|
            0 <= k < q.len() && k != i ==> #[trigger] q[k] == keys[k]);
        assert(q[i].action == keys[i].action && !is_mash(q[i].action));
        assert(has_mash(q) == has_mash(keys)) by {
            if has_mash(keys) {
                let w = choose|k: int| 0 <= k < keys.len() && is_mash((#[trigger] keys[k]).action);
                assert(is_mash(q[w].action));
            }
            if has_mash(q) {
                let w = choose|k: int| 0 <= k < q.len() && is_mash((#[trigger] q[k]).action);
                assert(is_mash(keys[w].action));
            }
        }
        assert(all_mash_pressed(q) == all_mash_pressed(keys)) by {
            if all_mash_pressed(keys) {
                assert forall|k: int|
                    0 <= k < q.len() && is_mash((#[trigger] q[k]).action) implies q[k].is_pressed by {
                    assert(keys[k].is_pressed);
                }
            }
            if all_mash_pressed(q) {
                assert forall|k: int|
                    0 <= k < keys.len() && is_mash((#[trigger] keys[k]).action)
                    implies keys[k].is_pressed by {
                    assert(q[k].is_pressed);
                }
            }
        }
    }
}

/// Law: releasing any mash-trigger key immediately clears the masher flag.
pub proof fn lemma_mash_release_deactivates(keys: Seq<KeyBinding>, key: u32)
    requires
        keys_wf(keys),
        has_key(keys, key),
        is_mash(keys[key_index(keys, key)].action),
    ensures
        !mash_active(keys_after(keys, key, false)),
{
    let i = key_index(keys, key);
    let q = keys_after(keys, key, false);
    assert(is_mash(q[i].action) && !q[i].is_pressed);
}

/// Law: pressing a mash-trigger key while every other mash-trigger key is
/// already physically held raises the masher flag.
pub proof fn lemma_mash_press_activates(keys: Seq<KeyBinding>, key: u32)
    requires
        keys_wf(keys),
        has_key(keys, key),
        is_mash(keys[key_index(keys, key)].action),
        forall|i: int|
            0 <= i < keys.len() && is_mash((#[trigger] keys[i]).action) && keys[i].key != key
                ==> keys[i].is_pressed,
    ensures
        mash_active(keys_after(keys, key, true)),
{
    let i = key_index(keys, key);
    let q = keys_after(keys, key, true);
    assert(is_mash(q[i].action));
    assert(has_mash(q));
    assert forall|k: int|
        0 <= k < q.len() && is_mash((#[trigger] q[k]).action) implies q[k].is_pressed by {
        if k != i {
            assert(q[k] == keys[k]);
            assert(keys[k].key != key);
        }
    }
}

} // verus!
