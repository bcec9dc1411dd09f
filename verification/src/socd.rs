//! The resolver for simultaneously held opposite keys. Policy: the last
//! physical press wins; releasing the winner restores the other key while it
//! is still physically held. Resolution is edge-triggered on physical
//! transitions only, so the outcome is independent of any polling cadence.

use vstd::prelude::*;

use crate::types::{
    find_pair_index, has_pair, pair_index, pairs_wf, KeyEvent, OppositeKeyPair, SocdKind,
};

verus! {

/// The code of the discrete keyboard event synthesized for the opposite key
/// of `e`: its rebound keyboard code where it has one, else its raw key.
pub open spec fn synth_code(e: OppositeKeyPair) -> u32 {
    match e.opposite_mapping {
        Some(c) => c as u32,
        None => e.opposite_key,
    }
}

/// The pair table after a physical transition of `key`: `key`'s own entry
/// records the new physical state as both its physical and virtual state;
/// then, if the opposite entry is present, a new press defeats an opposite
/// that is both physically and virtually held, and a release restores an
/// opposite that is still physically held.
pub open spec fn socd_pairs_after(
    pairs: Seq<OppositeKeyPair>,
    key: u32,
    pressed: bool,
) -> Seq<OppositeKeyPair> {
    if !has_pair(pairs, key) {
        pairs
    } else {
        let i = pair_index(pairs, key);
        let e = OppositeKeyPair { is_pressed: pressed, is_virtual_pressed: pressed, ..pairs[i] };
        let p1 = pairs.update(i, e);
        if !has_pair(p1, e.opposite_key) {
            p1
        } else {
            let j = pair_index(p1, e.opposite_key);
            let o = p1[j];
            if pressed && o.is_pressed && o.is_virtual_pressed {
                p1.update(j, OppositeKeyPair { is_virtual_pressed: false, ..o })
            } else if !pressed && o.is_pressed {
                p1.update(j, OppositeKeyPair { is_virtual_pressed: true, ..o })
            } else {
                p1
            }
        }
    }
}

/// The discrete keyboard event a transition of `key` synthesizes for the
/// opposite key, if any: a release when the new press defeats it, a press
/// when releasing restores it. Pairs whose opposite maps to a face button
/// synthesize no discrete event; their virtual-press bit is read by the
/// frame aggregation instead.
pub open spec fn socd_synth(pairs: Seq<OppositeKeyPair>, key: u32, pressed: bool) -> Option<
    KeyEvent,
> {
    if !has_pair(pairs, key) {
        None
    } else {
        let i = pair_index(pairs, key);
        let e = OppositeKeyPair { is_pressed: pressed, is_virtual_pressed: pressed, ..pairs[i] };
        let p1 = pairs.update(i, e);
        if !has_pair(p1, e.opposite_key) {
            None
        } else {
            let o = p1[pair_index(p1, e.opposite_key)];
            if pressed && o.is_pressed && o.is_virtual_pressed {
                match e.opposite_kind {
                    SocdKind::Keyboard => Some(KeyEvent { code: synth_code(e), pressed: false }),
                    SocdKind::FaceButton => None,
                }
            } else if !pressed && o.is_pressed {
                match e.opposite_kind {
                    SocdKind::Keyboard => Some(KeyEvent { code: synth_code(e), pressed: true }),
                    SocdKind::FaceButton => None,
                }
            } else {
                None
            }
        }
    }
}

/// Replacing an entry without changing which key it belongs to leaves every
/// lookup of the table unchanged.
pub proof fn lemma_update_preserves_lookup(
    pairs: Seq<OppositeKeyPair>,
    i: int,
    e: OppositeKeyPair,
    key: u32,
)
    requires
        pairs_wf(pairs),
        0 <= i < pairs.len(),
        e.primary == pairs[i].primary,
    ensures
        pairs_wf(pairs.update(i, e)),
        has_pair(pairs.update(i, e), key) == has_pair(pairs, key),
        has_pair(pairs, key) ==> pair_index(pairs.update(i, e), key) == pair_index(pairs, key),
{
    let q = pairs.update(i, e);
    assert(forall|k: int| 0 <= k < q.len() ==> (#[trigger] q[k]).primary == pairs[k].primary);
    if has_pair(pairs, key) {
        let y = pair_index(pairs, key);
        assert(q[y].primary == key);
        assert(has_pair(q, key));
        let x = pair_index(q, key);
        assert(pairs[x].primary == key);
        assert(x == y);
    }
    if has_pair(q, key) {
        let x = pair_index(q, key);
        assert(pairs[x].primary == key);
        assert(has_pair(pairs, key));
    }
}

/// Law: the resolution of a symmetrically configured pair (A, B) is
/// deterministic, with the last physical press winning. After pressing A and
/// then B, B is virtually pressed while A — though still physically held —
/// is virtually released. Releasing B then restores A to virtually pressed,
/// since A is still physically held; releasing A instead leaves B virtually
/// pressed and A fully released.
pub proof fn lemma_socd_determinism(pairs: Seq<OppositeKeyPair>, a: u32, b: u32)
    requires
        pairs_wf(pairs),
        a != b,
        has_pair(pairs, a),
        has_pair(pairs, b),
        pairs[pair_index(pairs, a)].opposite_key == b,
        pairs[pair_index(pairs, b)].opposite_key == a,
    ensures
        ({
            let p2 = socd_pairs_after(socd_pairs_after(pairs, a, true), b, true);
            &&& p2[pair_index(p2, a)].is_pressed
            &&& !p2[pair_index(p2, a)].is_virtual_pressed
            &&& p2[pair_index(p2, b)].is_pressed
            &&& p2[pair_index(p2, b)].is_virtual_pressed
        }),
        ({
            let p2 = socd_pairs_after(socd_pairs_after(pairs, a, true), b, true);
            let p3 = socd_pairs_after(p2, b, false);
            &&& p3[pair_index(p3, a)].is_pressed
            &&& p3[pair_index(p3, a)].is_virtual_pressed
            &&& !p3[pair_index(p3, b)].is_pressed
            &&& !p3[pair_index(p3, b)].is_virtual_pressed
        }),
        ({
            let p2 = socd_pairs_after(socd_pairs_after(pairs, a, true), b, true);
            let p4 = socd_pairs_after(p2, a, false);
            &&& !p4[pair_index(p4, a)].is_pressed
            &&& !p4[pair_index(p4, a)].is_virtual_pressed
            &&& p4[pair_index(p4, b)].is_pressed
            &&& p4[pair_index(p4, b)].is_virtual_pressed
        }),
{
    let ia = pair_index(pairs, a);
    let ib = pair_index(pairs, b);
    assert(pairs[ia].primary == a);
    assert(pairs[ib].primary == b);
    assert(ia != ib);

    // Press A: A's entry becomes physically and virtually pressed; whether
    // B's virtual press survives depends on B's prior state, but B's
    // physical state is untouched.
    let e1 = OppositeKeyPair { is_pressed: true, is_virtual_pressed: true, ..pairs[ia] };
    let q1 = pairs.update(ia, e1);
    lemma_update_preserves_lookup(pairs, ia, e1, a);
    lemma_update_preserves_lookup(pairs, ia, e1, b);
    let o1 = q1[ib];
    let p1 = socd_pairs_after(pairs, a, true);
    if o1.is_pressed && o1.is_virtual_pressed {
        assert(p1 == q1.update(ib, OppositeKeyPair { is_virtual_pressed: false, ..o1 }));
        lemma_update_preserves_lookup(q1, ib, OppositeKeyPair { is_virtual_pressed: false, ..o1 }, a);
        lemma_update_preserves_lookup(q1, ib, OppositeKeyPair { is_virtual_pressed: false, ..o1 }, b);
    } else {
        assert(p1 == q1);
    }
    assert(pairs_wf(p1));
    assert(pair_index(p1, a) == ia && pair_index(p1, b) == ib);
    assert(p1[ia] == e1);
    assert(p1[ib].primary == b && p1[ib].opposite_key == a);
    assert(p1[ib].is_pressed == pairs[ib].is_pressed);

    // Press B: B's entry becomes pressed and virtually pressed; A, being
    // both physically and virtually held, loses its virtual press.
    let e2 = OppositeKeyPair { is_pressed: true, is_virtual_pressed: true, ..p1[ib] };
    let q2 = p1.update(ib, e2);
    lemma_update_preserves_lookup(p1, ib, e2, a);
    lemma_update_preserves_lookup(p1, ib, e2, b);
    assert(q2[ia] == e1);
    let a2 = OppositeKeyPair { is_virtual_pressed: false, ..e1 };
    let p2 = socd_pairs_after(p1, b, true);
    assert(p2 == q2.update(ia, a2));
    lemma_update_preserves_lookup(q2, ia, a2, a);
    lemma_update_preserves_lookup(q2, ia, a2, b);
    assert(pairs_wf(p2));
    assert(pair_index(p2, a) == ia && pair_index(p2, b) == ib);
    assert(p2[ia] == a2);
    assert(p2[ib] == e2);

    // Release B: B's entry resets; A, still physically held, has its
    // virtual press restored.
    let e3 = OppositeKeyPair { is_pressed: false, is_virtual_pressed: false, ..e2 };
    let q3 = p2.update(ib, e3);
    lemma_update_preserves_lookup(p2, ib, e3, a);
    lemma_update_preserves_lookup(p2, ib, e3, b);
    assert(q3[ia] == a2 && a2.is_pressed);
    let a3 = OppositeKeyPair { is_virtual_pressed: true, ..a2 };
    let p3 = socd_pairs_after(p2, b, false);
    assert(p3 == q3.update(ia, a3));
    lemma_update_preserves_lookup(q3, ia, a3, a);
    lemma_update_preserves_lookup(q3, ia, a3, b);
    assert(pair_index(p3, a) == ia && pair_index(p3, b) == ib);
    assert(p3[ia] == a3);
    assert(p3[ib] == e3);

    // Release A instead: A's entry resets; B, still physically held and
    // already virtually pressed, keeps its virtual press.
    let e4 = OppositeKeyPair { is_pressed: false, is_virtual_pressed: false, ..a2 };
    let q4 = p2.update(ia, e4);
    lemma_update_preserves_lookup(p2, ia, e4, a);
    lemma_update_preserves_lookup(p2, ia, e4, b);
    assert(q4[ib] == e2 && e2.is_pressed);
    let b4 = OppositeKeyPair { is_virtual_pressed: true, ..e2 };
    let p4 = socd_pairs_after(p2, a, false);
    assert(p4 == q4.update(ib, b4));
    lemma_update_preserves_lookup(q4, ib, b4, a);
    lemma_update_preserves_lookup(q4, ib, b4, b);
    assert(pair_index(p4, a) == ia && pair_index(p4, b) == ib);
    assert(p4[ia] == e4);
    assert(p4[ib] == b4);
}

/// Records a physical transition of `key` in the pair table and returns the
/// synthesized event for the opposite key, if any.
pub fn socd_resolve(pairs: &mut Vec<OppositeKeyPair>, key: u32, pressed: bool) -> (ev: Option<
    KeyEvent,
>)
    requires
        pairs_wf(old(pairs)@),
    ensures
        final(pairs)@ == socd_pairs_after(old(pairs)@, key, pressed),
        ev == socd_synth(old(pairs)@, key, pressed),
        pairs_wf(final(pairs)@),
{
    let ghost p0 = pairs@;
    let n: usize = pairs.len();
    assert(p0.len() == n as int);
    match find_pair_index(pairs, key) {
        None => None,
        Some(i) => {
            proof {
                assert(has_pair(p0, key));
                assert(i == pair_index(p0, key) as usize);
                assert(0 <= pair_index(p0, key) < p0.len());
                assert(i as int == pair_index(p0, key));
            }
            let mut e = pairs[i];
            e.is_pressed = pressed;
            e.is_virtual_pressed = pressed;
            pairs.set(i, e);
            proof {
                assert(e == OppositeKeyPair {
                    is_pressed: pressed,
                    is_virtual_pressed: pressed,
                    ..p0[i as int]
                });
                assert(pairs@ == p0.update(i as int, e));
                lemma_update_preserves_lookup(p0, i as int, e, key);
                lemma_update_preserves_lookup(p0, i as int, e, e.opposite_key);
            }
            match find_pair_index(pairs, e.opposite_key) {
                None => None,
                Some(j) => {
                    let o = pairs[j];
                    if pressed && o.is_pressed && o.is_virtual_pressed {
                        let mut o2 = o;
                        o2.is_virtual_pressed = false;
                        pairs.set(j, o2);
                        match e.opposite_kind {
                            SocdKind::Keyboard => {
                                let code = match e.opposite_mapping {
                                    Some(c) => c as u32,
                                    None => e.opposite_key,
                                };
                                Some(KeyEvent { code, pressed: false })
                            },
                            SocdKind::FaceButton => None,
                        }
                    } else if !pressed && o.is_pressed {
                        let mut o2 = o;
                        o2.is_virtual_pressed = true;
                        pairs.set(j, o2);
                        match e.opposite_kind {
                            SocdKind::Keyboard => {
                                let code = match e.opposite_mapping {
                                    Some(c) => c as u32,
                                    None => e.opposite_key,
                                };
                                Some(KeyEvent { code, pressed: true })
                            },
                            SocdKind::FaceButton => None,
                        }
                    } else {
                        None
                    }
                },
            }
        },
    }
}

} // verus!
