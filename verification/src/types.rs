//! Core data model: actions a key can be bound to, the per-key state tables,
//! and the values the engine emits (virtual key events, hat events, gamepad
//! frames).

use vstd::prelude::*;

verus! {

/// One of the four analog stick axes of the virtual gamepad.
#[derive(Clone, Copy, PartialEq, Eq, Structural, Debug)]
pub enum Axis {
    Lx,
    Ly,
    Rx,
    Ry,
}

/// The configured action of a bound key, with values already converted to
/// output units at load time: trigger values scaled to 0..=1023, Y axes
/// sign-flipped, face-button values kept as bitmasks of the gamepad's
/// button word.
#[derive(Clone, Copy, PartialEq, Eq, Structural, Debug)]
pub enum ActionKind {
    /// Re-emit as a virtual keyboard key with this code.
    Keyboard { code: u16 },
    /// Hold these bits of the gamepad button bitmask while pressed.
    FaceButton { mask: u16 },
    /// Drive the left trigger to this value (0..=1023) while pressed.
    LeftTrigger { value: u16 },
    /// Drive the right trigger to this value (0..=1023) while pressed.
    RightTrigger { value: u16 },
    /// Drive one stick axis to this value while pressed.
    ThumbAxis { axis: Axis, value: i16 },
    /// Member of the mash-trigger set; `code` is its configured output code.
    MashTrigger { code: u16 },
}

/// Pressed/action state of one bound physical key.
#[derive(Clone, Copy, PartialEq, Eq, Structural, Debug)]
pub struct KeyBinding {
    /// The physical key, as a platform-neutral identifier.
    pub key: u32,
    /// What the key is bound to.
    pub action: ActionKind,
    /// Whether the key is currently physically held.
    pub is_pressed: bool,
}

/// The kind of output the opposite key of a pair resolves to.
#[derive(Clone, Copy, PartialEq, Eq, Structural, Debug)]
pub enum SocdKind {
    Keyboard,
    FaceButton,
}

/// One side of a configured pair of mutually exclusive keys. The table holds
/// one entry per configured side, keyed by the physical key, so a transition
/// of either key resolves in one lookup.
#[derive(Clone, Copy, PartialEq, Eq, Structural, Debug)]
pub struct OppositeKeyPair {
    /// The physical key this entry belongs to.
    pub primary: u32,
    /// Whether `primary` is physically held.
    pub is_pressed: bool,
    /// Whether `primary` is virtually held after conflict resolution.
    pub is_virtual_pressed: bool,
    /// The physical key configured as the opposite of `primary`.
    pub opposite_key: u32,
    /// The kind of output the opposite key maps to.
    pub opposite_kind: SocdKind,
    /// The opposite key's rebound output (keyboard code or face-button
    /// mask), if it has a non-pair binding of such a kind; `None` means the
    /// opposite's raw key code is used directly.
    pub opposite_mapping: Option<u16>,
}

/// Precomputed complement of one d-pad direction code, with the live
/// physical pressed state of the key bound to that direction.
#[derive(Clone, Copy, PartialEq, Eq, Structural, Debug)]
pub struct DpadComplement {
    /// The d-pad direction code (one of 0x1, 0x2, 0x4, 0x8).
    pub code: u32,
    /// The mutually exclusive opposite direction code.
    pub opposite: u32,
    /// Whether a key bound to `code` is currently physically held.
    pub is_pressed: bool,
}

/// A virtual keyboard event the engine asks its sink to emit.
#[derive(Clone, Copy, PartialEq, Eq, Structural, Debug)]
pub struct KeyEvent {
    /// Key code in the logical keyboard code space.
    pub code: u32,
    /// True for press, false for release.
    pub pressed: bool,
}

/// One of the two hat-switch axes of the d-pad.
#[derive(Clone, Copy, PartialEq, Eq, Structural, Debug)]
pub enum HatAxis {
    X,
    Y,
}

/// A hat-switch event for the d-pad: -1, 0 or 1 on one hat axis.
#[derive(Clone, Copy, PartialEq, Eq, Structural, Debug)]
pub struct HatEvent {
    pub axis: HatAxis,
    pub value: i32,
}

/// A complete snapshot of the virtual gamepad, recomputed in full from the
/// key state tables on every dispatch, never patched incrementally.
#[derive(Clone, Copy, PartialEq, Eq, Structural, Debug)]
pub struct GamepadFrame {
    /// Button bitmask, including the d-pad direction bits.
    pub buttons: u16,
    /// Left trigger value, 0..=1023.
    pub left_trigger: u16,
    /// Right trigger value, 0..=1023.
    pub right_trigger: u16,
    pub thumb_lx: i16,
    pub thumb_ly: i16,
    pub thumb_rx: i16,
    pub thumb_ry: i16,
}

/// One configuration record, as read from the user's binding list: a
/// physical keycode in hexadecimal text, the name of a result kind, and the
/// result value in that kind's input units.
#[derive(Clone, Debug)]
pub struct ConfigRecord {
    pub keycode: String,
    pub result_type: String,
    pub result_value: i32,
}

/// The error loading a configuration fails with: the position of the first
/// record whose keycode is not a well-formed hexadecimal key identifier.
#[derive(Clone, Copy, PartialEq, Eq, Structural, Debug)]
pub struct ConfigError {
    pub index: usize,
}

/// The all-neutral gamepad frame.
pub open spec fn zero_frame() -> GamepadFrame {
    GamepadFrame {
        buttons: 0,
        left_trigger: 0,
        right_trigger: 0,
        thumb_lx: 0,
        thumb_ly: 0,
        thumb_rx: 0,
        thumb_ry: 0,
    }
}

impl GamepadFrame {
    /// Builds the all-neutral frame.
    pub fn zero() -> (r: GamepadFrame)
        ensures
            r == zero_frame(),
    {
        GamepadFrame {
            buttons: 0,
            left_trigger: 0,
            right_trigger: 0,
            thumb_lx: 0,
            thumb_ly: 0,
            thumb_rx: 0,
            thumb_ry: 0,
        }
    }
}

/// The key table binds each physical key at most once.
pub open spec fn keys_wf(keys: Seq<KeyBinding>) -> bool {
    forall|i: int, j: int|
        0 <= i < j < keys.len() ==> (#[trigger] keys[i]).key != (#[trigger] keys[j]).key
}

/// Some entry of the key table is for `key`.
pub open spec fn has_key(keys: Seq<KeyBinding>, key: u32) -> bool {
    exists|i: int| 0 <= i < keys.len() && (#[trigger] keys[i]).key == key
}

/// The index of the entry for `key`; meaningful only under `keys_wf` and
/// `has_key`.
pub open spec fn key_index(keys: Seq<KeyBinding>, key: u32) -> int {
    choose|i: int| 0 <= i < keys.len() && (#[trigger] keys[i]).key == key
}

/// The pair table has at most one entry per physical key.
pub open spec fn pairs_wf(pairs: Seq<OppositeKeyPair>) -> bool {
    forall|i: int, j: int|
        0 <= i < j < pairs.len() ==> (#[trigger] pairs[i]).primary != (#[trigger] pairs[j]).primary
}

/// Some entry of the pair table is for `key`.
pub open spec fn has_pair(pairs: Seq<OppositeKeyPair>, key: u32) -> bool {
    exists|i: int| 0 <= i < pairs.len() && (#[trigger] pairs[i]).primary == key
}

/// The index of the pair entry for `key`; meaningful only under `pairs_wf`
/// and `has_pair`.
pub open spec fn pair_index(pairs: Seq<OppositeKeyPair>, key: u32) -> int {
    choose|i: int| 0 <= i < pairs.len() && (#[trigger] pairs[i]).primary == key
}

/// The complement table has at most one entry per direction code, and every
/// entry pairs a d-pad code with its fixed opposite.
pub open spec fn dpads_wf(dpads: Seq<DpadComplement>) -> bool {
    &&& forall|i: int, j: int|
        0 <= i < j < dpads.len() ==> (#[trigger] dpads[i]).code != (#[trigger] dpads[j]).code
    &&& forall|i: int|
        0 <= i < dpads.len() ==> is_dpad_code((#[trigger] dpads[i]).code)
            && dpads[i].opposite == dpad_opposite(dpads[i].code)
}

/// Some entry of the complement table is for `code`.
pub open spec fn has_dpad(dpads: Seq<DpadComplement>, code: u32) -> bool {
    exists|i: int| 0 <= i < dpads.len() && (#[trigger] dpads[i]).code == code
}

/// The index of the complement entry for `code`; meaningful only under
/// `dpads_wf` and `has_dpad`.
pub open spec fn dpad_index(dpads: Seq<DpadComplement>, code: u32) -> int {
    choose|i: int| 0 <= i < dpads.len() && (#[trigger] dpads[i]).code == code
}

/// Whether `code` is one of the four d-pad direction bits.
pub open spec fn is_dpad_code(code: u32) -> bool {
    code == 0x1 || code == 0x2 || code == 0x4 || code == 0x8
}

/// The mutually exclusive opposite of a d-pad direction code.
pub open spec fn dpad_opposite(code: u32) -> u32 {
    if code == 0x1 {
        0x2
    } else if code == 0x2 {
        0x1
    } else if code == 0x4 {
        0x8
    } else {
        0x4
    }
}

/// The key table after a physical transition of `key`: the entry for `key`,
/// if there is one, records the new physical state; bindings never change.
pub open spec fn keys_after(keys: Seq<KeyBinding>, key: u32, pressed: bool) -> Seq<KeyBinding> {
    if has_key(keys, key) {
        let i = key_index(keys, key);
        keys.update(i, KeyBinding { is_pressed: pressed, ..keys[i] })
    } else {
        keys
    }
}

/// Replacing an entry without changing which key it binds leaves every
/// lookup of the key table unchanged.
pub proof fn lemma_key_update_preserves_lookup(keys: Seq<KeyBinding>, i: int, e: KeyBinding, key: u32)
    requires
        keys_wf(keys),
        0 <= i < keys.len(),
        e.key == keys[i].key,
    ensures
        keys_wf(keys.update(i, e)),
        has_key(keys.update(i, e), key) == has_key(keys, key),
        has_key(keys, key) ==> key_index(keys.update(i, e), key) == key_index(keys, key),
{
    let q = keys.update(i, e);
    assert(forall|k: int| 0 <= k < q.len() ==> (#[trigger] q[k]).key == keys[k].key);
    if has_key(keys, key) {
        let y = key_index(keys, key);
        assert(q[y].key == key);
        assert(has_key(q, key));
        let x = key_index(q, key);
        assert(keys[x].key == key);
        assert(x == y);
    }
    if has_key(q, key) {
        let x = key_index(q, key);
        assert(keys[x].key == key);
        assert(has_key(keys, key));
    }
}

/// Records a physical transition of `key` in the key table.
pub fn store_transition(keys: &mut Vec<KeyBinding>, key: u32, pressed: bool)
    requires
        keys_wf(old(keys)@),
    ensures
        final(keys)@ == keys_after(old(keys)@, key, pressed),
        keys_wf(final(keys)@),
{
    let ghost k0 = keys@;
    let n: usize = keys.len();
    assert(k0.len() == n as int);
    match find_key_index(keys, key) {
        Some(i) => {
            let mut e = keys[i];
            e.is_pressed = pressed;
            proof {
                assert(0 <= key_index(k0, key) < k0.len());
                lemma_key_update_preserves_lookup(k0, i as int, e, key);
            }
            keys.set(i, e);
        },
        None => {},
    }
}

/// Finds the entry of the key table for `key`, if any.
pub fn find_key_index(keys: &Vec<KeyBinding>, key: u32) -> (r: Option<usize>)
    requires
        keys_wf(keys@),
    ensures
        r == if has_key(keys@, key) {
            Some(key_index(keys@, key) as usize)
        } else {
            None::<usize>
        },
{
    let mut i: usize = 0;
    while i < keys.len()
        invariant
            i <= keys@.len(),
            keys_wf(keys@),
            forall|k: int| 0 <= k < i ==> (#[trigger] keys@[k]).key != key,
        decreases keys@.len() - i,
    {
        if keys[i].key == key {
            proof {
                assert(has_key(keys@, key));
                let j = key_index(keys@, key);
                assert(keys@[j].key == key);
                assert(j == i as int);
            }
            return Some(i);
        }
        i = i + 1;
    }
    assert(!has_key(keys@, key));
    None
}

/// Finds the entry of the pair table for `key`, if any.
pub fn find_pair_index(pairs: &Vec<OppositeKeyPair>, key: u32) -> (r: Option<usize>)
    requires
        pairs_wf(pairs@),
    ensures
        r == if has_pair(pairs@, key) {
            Some(pair_index(pairs@, key) as usize)
        } else {
            None::<usize>
        },
{
    let mut i: usize = 0;
    while i < pairs.len()
        invariant
            i <= pairs@.len(),
            pairs_wf(pairs@),
            forall|k: int| 0 <= k < i ==> (#[trigger] pairs@[k]).primary != key,
        decreases pairs@.len() - i,
    {
        if pairs[i].primary == key {
            proof {
                assert(has_pair(pairs@, key));
                let j = pair_index(pairs@, key);
                assert(pairs@[j].primary == key);
                assert(j == i as int);
            }
            return Some(i);
        }
        i = i + 1;
    }
    assert(!has_pair(pairs@, key));
    None
}

/// Finds the entry of the complement table for `code`, if any.
pub fn find_dpad_index(dpads: &Vec<DpadComplement>, code: u32) -> (r: Option<usize>)
    requires
        dpads_wf(dpads@),
    ensures
        r == if has_dpad(dpads@, code) {
            Some(dpad_index(dpads@, code) as usize)
        } else {
            None::<usize>
        },
{
    let mut i: usize = 0;
    while i < dpads.len()
        invariant
            i <= dpads@.len(),
            dpads_wf(dpads@),
            forall|k: int| 0 <= k < i ==> (#[trigger] dpads@[k]).code != code,
        decreases dpads@.len() - i,
    {
        if dpads[i].code == code {
            proof {
                assert(has_dpad(dpads@, code));
                let j = dpad_index(dpads@, code);
                assert(dpads@[j].code == code);
                assert(j == i as int);
            }
            return Some(i);
        }
        i = i + 1;
    }
    assert(!has_dpad(dpads@, code));
    None
}

} // verus!
