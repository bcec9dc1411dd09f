//! D-pad handling. Each of the four direction codes maps to one hat axis and
//! a value on it; on release of a direction the precomputed complement table
//! is consulted, so that releasing one of two simultaneously held opposite
//! directions yields the other direction's hat value instead of a brief
//! neutral flicker.

use vstd::prelude::*;

use crate::types::{
    dpad_index, dpad_opposite, dpads_wf, find_dpad_index, has_dpad, is_dpad_code, DpadComplement,
    HatAxis, HatEvent,
};

verus! {

/// The hat-axis value a d-pad direction code drives when pressed.
pub open spec fn dpad_value(code: u32) -> i32 {
    if code == 0x1 || code == 0x4 {
        -1i32
    } else {
        1i32
    }
}

/// The hat axis a d-pad direction code belongs to.
pub open spec fn dpad_axis(code: u32) -> HatAxis {
    if code == 0x1 || code == 0x2 {
        HatAxis::Y
    } else {
        HatAxis::X
    }
}

/// The mutually exclusive opposite of a d-pad direction code.
pub fn dpad_button_opposite_key(code: u32) -> (r: Option<u32>)
    ensures
        r == if is_dpad_code(code) {
            Some(dpad_opposite(code))
        } else {
            None::<u32>
        },
{
    match code {
        0x1 => Some(0x2),
        0x2 => Some(0x1),
        0x4 => Some(0x8),
        0x8 => Some(0x4),
        _ => None,
    }
}

/// The hat-axis value of a d-pad direction code.
pub fn dpad_button_to_abs_value(code: u32) -> (r: Option<i32>)
    ensures
        r == if is_dpad_code(code) {
            Some(dpad_value(code))
        } else {
            None::<i32>
        },
{
    match code {
        0x1 => Some(-1),
        0x2 => Some(1),
        0x4 => Some(-1),
        0x8 => Some(1),
        _ => None,
    }
}

/// The hat axis of a d-pad direction code.
pub fn dpad_button_to_hat_axis(code: u32) -> (r: Option<HatAxis>)
    ensures
        r == if is_dpad_code(code) {
            Some(dpad_axis(code))
        } else {
            None::<HatAxis>
        },
{
    match code {
        0x1 => Some(HatAxis::Y),
        0x2 => Some(HatAxis::Y),
        0x4 => Some(HatAxis::X),
        0x8 => Some(HatAxis::X),
        _ => None,
    }
}

/// The complement table after a physical transition of a key bound to the
/// d-pad direction `code`.
pub open spec fn dpads_after(dpads: Seq<DpadComplement>, code: u32, pressed: bool) -> Seq<
    DpadComplement,
> {
    if has_dpad(dpads, code) {
        let i = dpad_index(dpads, code);
        dpads.update(i, DpadComplement { is_pressed: pressed, ..dpads[i] })
    } else {
        dpads
    }
}

/// The hat event a transition of direction `code` emits: the direction's own
/// value on a press; on a release, the opposite direction's value if that
/// direction is still physically held, else neutral.
pub open spec fn hat_for(dpads: Seq<DpadComplement>, code: u32, pressed: bool) -> HatEvent {
    if pressed {
        HatEvent { axis: dpad_axis(code), value: dpad_value(code) }
    } else {
        let opp = dpad_opposite(code);
        if has_dpad(dpads, opp) && dpads[dpad_index(dpads, opp)].is_pressed {
            HatEvent { axis: dpad_axis(code), value: dpad_value(opp) }
        } else {
            HatEvent { axis: dpad_axis(code), value: 0 }
        }
    }
}

/// Replacing an entry without changing its direction code leaves every
/// lookup of the complement table unchanged, and keeps the table well
/// formed as long as the fixed fields are kept.
pub proof fn lemma_dpad_update_preserves_lookup(
    dpads: Seq<DpadComplement>,
    i: int,
    e: DpadComplement,
    code: u32,
)
    requires
        dpads_wf(dpads),
        0 <= i < dpads.len(),
        e.code == dpads[i].code,
        e.opposite == dpads[i].opposite,
    ensures
        dpads_wf(dpads.update(i, e)),
        has_dpad(dpads.update(i, e), code) == has_dpad(dpads, code),
        has_dpad(dpads, code) ==> dpad_index(dpads.update(i, e), code) == dpad_index(dpads, code),
{
    let q = dpads.update(i, e);
    assert(forall|k: int| 0 <= k < q.len() ==> (#[trigger] q[k]).code == dpads[k].code);
    if has_dpad(dpads, code) {
        let y = dpad_index(dpads, code);
        assert(q[y].code == code);
        assert(has_dpad(q, code));
        let x = dpad_index(q, code);
        assert(dpads[x].code == code);
        assert(x == y);
    }
    if has_dpad(q, code) {
        let x = dpad_index(q, code);
        assert(dpads[x].code == code);
        assert(has_dpad(dpads, code));
    }
}

/// Law: with two opposite d-pad directions both physically held, releasing
/// one yields the hat value of the direction still held, not neutral;
/// releasing the remaining one afterwards yields neutral.
pub proof fn lemma_dpad_complement_on_release(dpads: Seq<DpadComplement>, c: u32)
    requires
        dpads_wf(dpads),
        is_dpad_code(c),
        has_dpad(dpads, c),
        has_dpad(dpads, dpad_opposite(c)),
        dpads[dpad_index(dpads, c)].is_pressed,
        dpads[dpad_index(dpads, dpad_opposite(c))].is_pressed,
    ensures
        hat_for(dpads, c, false) == (HatEvent {
            axis: dpad_axis(c),
            value: dpad_value(dpad_opposite(c)),
        }),
        ({
            let d1 = dpads_after(dpads, c, false);
            hat_for(d1, dpad_opposite(c), false) == (HatEvent {
                axis: dpad_axis(dpad_opposite(c)),
                value: 0,
            })
        }),
{
    let o = dpad_opposite(c);
    let i = dpad_index(dpads, c);
    let e = DpadComplement { is_pressed: false, ..dpads[i] };
    lemma_dpad_update_preserves_lookup(dpads, i, e, c);
    lemma_dpad_update_preserves_lookup(dpads, i, e, o);
    let d1 = dpads_after(dpads, c, false);
    assert(dpad_opposite(o) == c);
    assert(d1[dpad_index(d1, c)] == e);
    assert(!d1[dpad_index(d1, dpad_opposite(o))].is_pressed);
}

/// Computes the hat event for a transition of direction `code` and records
/// the new physical state in the complement table.
pub fn dpad_transition(dpads: &mut Vec<DpadComplement>, code: u32, pressed: bool) -> (hat:
    HatEvent)
    requires
        dpads_wf(old(dpads)@),
        is_dpad_code(code),
    ensures
        final(dpads)@ == dpads_after(old(dpads)@, code, pressed),
        hat == hat_for(old(dpads)@, code, pressed),
        dpads_wf(final(dpads)@),
{
    let ghost d0 = dpads@;
    let n: usize = dpads.len();
    assert(d0.len() == n as int);

    let hat: HatEvent;
    if pressed {
        hat = HatEvent { axis: dpad_button_to_hat_axis(code).unwrap(), value: dpad_button_to_abs_value(code).unwrap() };
    } else {
        let opp = dpad_button_opposite_key(code).unwrap();
        let axis = dpad_button_to_hat_axis(code).unwrap();
        match find_dpad_index(dpads, opp) {
            Some(j) => {
                if dpads[j].is_pressed {
                    hat = HatEvent { axis, value: dpad_button_to_abs_value(opp).unwrap() };
                } else {
                    hat = HatEvent { axis, value: 0 };
                }
            },
            None => {
                hat = HatEvent { axis, value: 0 };
            },
        }
    }

    match find_dpad_index(dpads, code) {
        Some(i) => {
            let mut e = dpads[i];
            e.is_pressed = pressed;
            proof {
                assert(0 <= dpad_index(d0, code) < d0.len());
                lemma_dpad_update_preserves_lookup(d0, i as int, e, code);
            }
            dpads.set(i, e);
        },
        None => {},
    }
    hat
}

} // verus!
