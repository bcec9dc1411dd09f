//! Configuration loading: parses the textual config records into the binding
//! tables. A record binds one physical key (given as a hexadecimal keycode
//! string) to one result; values are converted to output units here, at load
//! time, never at dispatch time.

use vstd::prelude::*;

use crate::dpad::dpad_button_opposite_key;
use crate::types::{
    dpad_opposite, dpads_wf, find_key_index, find_pair_index, has_dpad, has_key, has_pair,
    is_dpad_code, key_index, keys_wf, pairs_wf, ActionKind, Axis, ConfigError, ConfigRecord,
    DpadComplement, KeyBinding, OppositeKeyPair, SocdKind,
};

verus! {

/// The result kinds a config record can name.
#[derive(Clone, Copy, PartialEq, Eq, Structural, Debug)]
pub enum BindingType {
    Keyboard,
    FaceButton,
    TriggerL,
    TriggerR,
    ThumbLx,
    ThumbLy,
    ThumbRx,
    ThumbRy,
    Socd,
    MashTrigger,
}

/// Whether `c` is a hexadecimal digit.
pub open spec fn is_hex_digit(c: char) -> bool {
    let n = c as u32;
    (0x30 <= n && n <= 0x39) || (0x61 <= n && n <= 0x66) || (0x41 <= n && n <= 0x46)
}

/// The value of a hexadecimal digit (0 for any other character).
pub open spec fn hex_digit_value(c: char) -> int {
    let n = c as u32;
    if 0x30 <= n && n <= 0x39 {
        n - 0x30
    } else if 0x61 <= n && n <= 0x66 {
        n - 0x57
    } else if 0x41 <= n && n <= 0x46 {
        n - 0x37
    } else {
        0
    }
}

/// The value of a sequence of hexadecimal digits, most significant first.
pub open spec fn hex_value(s: Seq<char>) -> int
    decreases s.len(),
{
    if s.len() == 0 {
        0
    } else {
        hex_value(s.drop_last()) * 16 + hex_digit_value(s.last())
    }
}

/// Every character of `s` is a hexadecimal digit.
pub open spec fn all_hex(s: Seq<char>) -> bool {
    forall|i: int| 0 <= i < s.len() ==> is_hex_digit(#[trigger] s[i])
}

/// The digits of a keycode string: a single leading plus sign is accepted
/// and skipped.
pub open spec fn hex_digits_of(s: Seq<char>) -> Seq<char> {
    if s.len() > 0 && s[0] == '+' {
        s.skip(1)
    } else {
        s
    }
}

/// Whether `s` is a well-formed hexadecimal keycode: at least one digit,
/// all digits hexadecimal, and a value that fits a 32-bit key identifier.
pub open spec fn is_valid_hex_u32(s: Seq<char>) -> bool {
    let d = hex_digits_of(s);
    d.len() > 0 && all_hex(d) && hex_value(d) <= u32::MAX
}

/// The key identifier a well-formed keycode string denotes.
pub open spec fn hex_u32(s: Seq<char>) -> u32 {
    hex_value(hex_digits_of(s)) as u32
}

proof fn lemma_hex_value_nonneg(s: Seq<char>)
    ensures
        hex_value(s) >= 0,
    decreases s.len(),
{
    if s.len() > 0 {
        lemma_hex_value_nonneg(s.drop_last());
    }
}

proof fn lemma_hex_value_grows(s: Seq<char>, i: int)
    requires
        0 <= i <= s.len(),
    ensures
        hex_value(s.take(i)) <= hex_value(s),
    decreases s.len() - i,
{
    if i == s.len() {
        assert(s.take(i) =~= s);
    } else {
        lemma_hex_value_grows(s, i + 1);
        assert(s.take(i + 1).drop_last() =~= s.take(i));
        assert(s.take(i + 1).last() == s[i]);
        lemma_hex_value_nonneg(s.take(i));
    }
}

/// Parses a hexadecimal keycode string into a key identifier; `None` for a
/// string that is empty, holds a non-digit, or exceeds the 32-bit range.
pub fn parse_hex_keycode(s: &String) -> (r: Option<u32>)
    ensures
        r == if is_valid_hex_u32(s@) {
            Some(hex_u32(s@))
        } else {
            None::<u32>
        },
{
    let st: &str = s.as_str();
    let len: usize = st.unicode_len();
    let start: usize = if len > 0 && st.get_char(0) == '+' {
        1
    } else {
        0
    };
    let ghost d = hex_digits_of(s@);
    proof {
        if start == 1 {
            assert(d =~= s@.skip(1));
        } else {
            assert(d =~= s@);
        }
    }
    if start >= len {
        assert(d.len() == 0);
        return None;
    }
    let mut acc: u64 = 0;
    let mut i: usize = start;
    while i < len
        invariant
            start <= i <= len,
            st@ == s@,
            len as int == s@.len(),
            start == 1 ==> s@.len() > 0 && s@[0] == '+',
            start == 0 ==> !(s@.len() > 0 && s@[0] == '+'),
            d == hex_digits_of(s@),
            d.len() == len - start,
            forall|k: int| 0 <= k < d.len() ==> d[k] == s@[k + start],
            forall|k: int| 0 <= k < i - start ==> is_hex_digit(#[trigger] d[k]),
            acc == hex_value(d.take(i - start)),
            acc <= u32::MAX,
        decreases len - i,
    {
        let c = st.get_char(i);
        let n = c as u32;
        let dv: u32 = if 0x30 <= n && n <= 0x39 {
            n - 0x30
        } else if 0x61 <= n && n <= 0x66 {
            n - 0x57
        } else if 0x41 <= n && n <= 0x46 {
            n - 0x37
        } else {
            assert(!is_hex_digit(d[i - start]));
            return None;
        };
        proof {
            assert(d.take(i - start + 1).drop_last() =~= d.take(i - start));
            assert(d.take(i - start + 1).last() == d[i - start]);
        }
        acc = acc * 16 + dv as u64;
        if acc > 0xFFFF_FFFF {
            proof {
                lemma_hex_value_grows(d, i - start + 1);
            }
            return None;
        }
        i = i + 1;
    }
    proof {
        assert(d.take(len - start) =~= d);
    }
    Some(acc as u32)
}

/// The binding kind a result-type string names, if any; both the long and
/// the short trigger spellings are accepted.
pub open spec fn kind_of(t: Seq<char>) -> Option<BindingType> {
    if t == "keyboard"@ {
        Some(BindingType::Keyboard)
    } else if t == "face_button"@ {
        Some(BindingType::FaceButton)
    } else if t == "left_trigger"@ {
        Some(BindingType::TriggerL)
    } else if t == "trigger_l"@ {
        Some(BindingType::TriggerL)
    } else if t == "right_trigger"@ {
        Some(BindingType::TriggerR)
    } else if t == "trigger_r"@ {
        Some(BindingType::TriggerR)
    } else if t == "thumb_lx"@ {
        Some(BindingType::ThumbLx)
    } else if t == "thumb_ly"@ {
        Some(BindingType::ThumbLy)
    } else if t == "thumb_rx"@ {
        Some(BindingType::ThumbRx)
    } else if t == "thumb_ry"@ {
        Some(BindingType::ThumbRy)
    } else if t == "socd"@ {
        Some(BindingType::Socd)
    } else if t == "mash_trigger"@ {
        Some(BindingType::MashTrigger)
    } else {
        None
    }
}

/// Parses a result-type string; `None` for a kind the engine does not know,
/// whose records are ignored.
pub fn parse_result_type(s: &String) -> (r: Option<BindingType>)
    ensures
        r == kind_of(s@),
{
    if *s == String::from_str("keyboard") {
        Some(BindingType::Keyboard)
    } else if *s == String::from_str("face_button") {
        Some(BindingType::FaceButton)
    } else if *s == String::from_str("left_trigger") {
        Some(BindingType::TriggerL)
    } else if *s == String::from_str("trigger_l") {
        Some(BindingType::TriggerL)
    } else if *s == String::from_str("right_trigger") {
        Some(BindingType::TriggerR)
    } else if *s == String::from_str("trigger_r") {
        Some(BindingType::TriggerR)
    } else if *s == String::from_str("thumb_lx") {
        Some(BindingType::ThumbLx)
    } else if *s == String::from_str("thumb_ly") {
        Some(BindingType::ThumbLy)
    } else if *s == String::from_str("thumb_rx") {
        Some(BindingType::ThumbRx)
    } else if *s == String::from_str("thumb_ry") {
        Some(BindingType::ThumbRy)
    } else if *s == String::from_str("socd") {
        Some(BindingType::Socd)
    } else if *s == String::from_str("mash_trigger") {
        Some(BindingType::MashTrigger)
    } else {
        None
    }
}

/// A trigger value scaled from its 0..=255 input unit to the 0..=1023
/// output unit.
pub open spec fn scaled_trigger(v: int) -> u16 {
    (v * 1023 / 255) as u16
}

/// A Y-axis value with its sign flipped, saturating at the positive extreme
/// so the result still fits a signed 16-bit axis.
pub open spec fn flipped_axis(v: int) -> i16 {
    if v == -32768 {
        32767
    } else {
        (-v) as i16
    }
}

/// The action a result kind and value convert to. Values outside the kind's
/// input domain (key codes and button masks 0..=0xFFFF, triggers 0..=255,
/// axes -32768..=32767) convert to nothing, and their records are ignored.
pub open spec fn action_for(kind: BindingType, v: int) -> Option<ActionKind> {
    match kind {
        BindingType::Keyboard => if 0 <= v <= 0xFFFF {
            Some(ActionKind::Keyboard { code: v as u16 })
        } else {
            None
        },
        BindingType::FaceButton => if 0 <= v <= 0xFFFF {
            Some(ActionKind::FaceButton { mask: v as u16 })
        } else {
            None
        },
        BindingType::TriggerL => if 0 <= v <= 255 {
            Some(ActionKind::LeftTrigger { value: scaled_trigger(v) })
        } else {
            None
        },
        BindingType::TriggerR => if 0 <= v <= 255 {
            Some(ActionKind::RightTrigger { value: scaled_trigger(v) })
        } else {
            None
        },
        BindingType::ThumbLx => if -32768 <= v <= 32767 {
            Some(ActionKind::ThumbAxis { axis: Axis::Lx, value: v as i16 })
        } else {
            None
        },
        BindingType::ThumbLy => if -32768 <= v <= 32767 {
            Some(ActionKind::ThumbAxis { axis: Axis::Ly, value: flipped_axis(v) })
        } else {
            None
        },
        BindingType::ThumbRx => if -32768 <= v <= 32767 {
            Some(ActionKind::ThumbAxis { axis: Axis::Rx, value: v as i16 })
        } else {
            None
        },
        BindingType::ThumbRy => if -32768 <= v <= 32767 {
            Some(ActionKind::ThumbAxis { axis: Axis::Ry, value: flipped_axis(v) })
        } else {
            None
        },
        BindingType::MashTrigger => if 0 <= v <= 0xFFFF {
            Some(ActionKind::MashTrigger { code: v as u16 })
        } else {
            None
        },
        BindingType::Socd => None,
    }
}

/// Converts a result kind and value into an action.
pub fn action_of(kind: BindingType, v: i32) -> (r: Option<ActionKind>)
    ensures
        r == action_for(kind, v as int),
{
    match kind {
        BindingType::Keyboard => if 0 <= v && v <= 0xFFFF {
            Some(ActionKind::Keyboard { code: v as u16 })
        } else {
            None
        },
        BindingType::FaceButton => if 0 <= v && v <= 0xFFFF {
            Some(ActionKind::FaceButton { mask: v as u16 })
        } else {
            None
        },
        BindingType::TriggerL => if 0 <= v && v <= 255 {
            Some(ActionKind::LeftTrigger { value: (v * 1023 / 255) as u16 })
        } else {
            None
        },
        BindingType::TriggerR => if 0 <= v && v <= 255 {
            Some(ActionKind::RightTrigger { value: (v * 1023 / 255) as u16 })
        } else {
            None
        },
        BindingType::ThumbLx => if -32768 <= v && v <= 32767 {
            Some(ActionKind::ThumbAxis { axis: Axis::Lx, value: v as i16 })
        } else {
            None
        },
        BindingType::ThumbLy => if -32768 <= v && v <= 32767 {
            Some(ActionKind::ThumbAxis { axis: Axis::Ly, value: flip_axis_value(v as i16) })
        } else {
            None
        },
        BindingType::ThumbRx => if -32768 <= v && v <= 32767 {
            Some(ActionKind::ThumbAxis { axis: Axis::Rx, value: v as i16 })
        } else {
            None
        },
        BindingType::ThumbRy => if -32768 <= v && v <= 32767 {
            Some(ActionKind::ThumbAxis { axis: Axis::Ry, value: flip_axis_value(v as i16) })
        } else {
            None
        },
        BindingType::MashTrigger => if 0 <= v && v <= 0xFFFF {
            Some(ActionKind::MashTrigger { code: v as u16 })
        } else {
            None
        },
        BindingType::Socd => None,
    }
}

/// Flips the sign of an axis value, saturating at the positive extreme.
pub fn flip_axis_value(v: i16) -> (r: i16)
    ensures
        r == flipped_axis(v as int),
{
    if v == i16::MIN {
        i16::MAX
    } else {
        -v
    }
}

/// Whether a record's keycode text is well formed.
pub open spec fn record_valid(r: ConfigRecord) -> bool {
    is_valid_hex_u32(r.keycode@)
}

/// The physical key a record binds (meaningful only for a valid record).
pub open spec fn record_key(r: ConfigRecord) -> u32 {
    hex_u32(r.keycode@)
}

/// The result kind a record names, if the engine knows it.
pub open spec fn record_kind(r: ConfigRecord) -> Option<BindingType> {
    kind_of(r.result_type@)
}

/// The action a record binds its key to, if its kind and value make one.
pub open spec fn record_action(r: ConfigRecord) -> Option<ActionKind> {
    match record_kind(r) {
        Some(kind) => action_for(kind, r.result_value as int),
        None => None,
    }
}

/// The key table the first `n` records build: each record with an action
/// adds an entry for its key unless an earlier record already bound it.
pub open spec fn build_keys(rs: Seq<ConfigRecord>, n: int) -> Seq<KeyBinding>
    decreases n,
{
    if n <= 0 {
        Seq::empty()
    } else {
        let prev = build_keys(rs, n - 1);
        let r = rs[n - 1];
        match record_action(r) {
            Some(a) => if has_key(prev, record_key(r)) {
                prev
            } else {
                prev.push(KeyBinding { key: record_key(r), action: a, is_pressed: false })
            },
            None => prev,
        }
    }
}

/// The mash-output list the first `n` records build: the configured output
/// code of each mash-trigger record, in record order.
pub open spec fn build_mash(rs: Seq<ConfigRecord>, n: int) -> Seq<u16>
    decreases n,
{
    if n <= 0 {
        Seq::empty()
    } else {
        let prev = build_mash(rs, n - 1);
        match record_action(rs[n - 1]) {
            Some(ActionKind::MashTrigger { code }) => prev.push(code),
            _ => prev,
        }
    }
}

/// The d-pad complement table the first `n` records build: each face-button
/// record whose mask is a single d-pad direction bit seeds an entry for that
/// direction, once.
pub open spec fn build_dpads(rs: Seq<ConfigRecord>, n: int) -> Seq<DpadComplement>
    decreases n,
{
    if n <= 0 {
        Seq::empty()
    } else {
        let prev = build_dpads(rs, n - 1);
        match record_action(rs[n - 1]) {
            Some(ActionKind::FaceButton { mask }) => if is_dpad_code(mask as u32) && !has_dpad(
                prev,
                mask as u32,
            ) {
                prev.push(
                    DpadComplement {
                        code: mask as u32,
                        opposite: dpad_opposite(mask as u32),
                        is_pressed: false,
                    },
                )
            } else {
                prev
            },
            _ => prev,
        }
    }
}

/// The resolved output of key `k` for pair synthesis: its rebound keyboard
/// code or face-button mask where it has such a binding, else its raw key
/// code (the keyboard kind with no mapping).
pub open spec fn resolved_output(keys: Seq<KeyBinding>, k: u32) -> (SocdKind, Option<u16>) {
    if has_key(keys, k) {
        match keys[key_index(keys, k)].action {
            ActionKind::Keyboard { code } => (SocdKind::Keyboard, Some(code)),
            ActionKind::FaceButton { mask } => (SocdKind::FaceButton, Some(mask)),
            _ => (SocdKind::Keyboard, None),
        }
    } else {
        (SocdKind::Keyboard, None)
    }
}

/// The pair table the first `n` records build against the finished key
/// table: each pair record adds an entry for its key, unless an earlier
/// pair record already covered it or its opposite keycode is negative,
/// resolving the opposite key's rebound output.
pub open spec fn build_pairs(rs: Seq<ConfigRecord>, keys: Seq<KeyBinding>, n: int) -> Seq<
    OppositeKeyPair,
>
    decreases n,
{
    if n <= 0 {
        Seq::empty()
    } else {
        let prev = build_pairs(rs, keys, n - 1);
        let r = rs[n - 1];
        if record_kind(r) == Some(BindingType::Socd) && 0 <= r.result_value && !has_pair(
            prev,
            record_key(r),
        ) {
            let opp = r.result_value as u32;
            let out = resolved_output(keys, opp);
            prev.push(
                OppositeKeyPair {
                    primary: record_key(r),
                    is_pressed: false,
                    is_virtual_pressed: false,
                    opposite_key: opp,
                    opposite_kind: out.0,
                    opposite_mapping: out.1,
                },
            )
        } else {
            prev
        }
    }
}

/// The binding tables built from a configuration: the key state store, the
/// opposite-key pair table, the d-pad complement table and the mash-output
/// list, all in their freshly loaded (nothing pressed) state.
pub struct BindingTable {
    pub keys: Vec<KeyBinding>,
    pub pairs: Vec<OppositeKeyPair>,
    pub dpads: Vec<DpadComplement>,
    pub mash_outputs: Vec<u16>,
}

/// Builds the binding tables from the configuration records. Fails on the
/// first record whose keycode is not well-formed hexadecimal; records whose
/// result kind is unknown or whose value is outside the kind's input domain
/// are ignored.
pub fn load_tables(records: &Vec<ConfigRecord>) -> (r: Result<BindingTable, ConfigError>)
    ensures
        match r {
            Ok(t) => {
                &&& forall|i: int| 0 <= i < records@.len() ==> record_valid(#[trigger] records@[i])
                &&& t.keys@ == build_keys(records@, records@.len() as int)
                &&& t.pairs@ == build_pairs(
                    records@,
                    build_keys(records@, records@.len() as int),
                    records@.len() as int,
                )
                &&& t.dpads@ == build_dpads(records@, records@.len() as int)
                &&& t.mash_outputs@ == build_mash(records@, records@.len() as int)
                &&& keys_wf(t.keys@)
                &&& pairs_wf(t.pairs@)
                &&& dpads_wf(t.dpads@)
            },
            Err(e) => {
                &&& e.index < records@.len()
                &&& !record_valid(records@[e.index as int])
                &&& forall|j: int| 0 <= j < e.index ==> record_valid(#[trigger] records@[j])
            },
        },
{
    let mut keys: Vec<KeyBinding> = Vec::new();
    let mut dpads: Vec<DpadComplement> = Vec::new();
    let mut mash_outputs: Vec<u16> = Vec::new();

    let mut i: usize = 0;
    while i < records.len()
        invariant
            i <= records@.len(),
            forall|j: int| 0 <= j < i ==> record_valid(#[trigger] records@[j]),
            keys@ == build_keys(records@, i as int),
            dpads@ == build_dpads(records@, i as int),
            mash_outputs@ == build_mash(records@, i as int),
            keys_wf(keys@),
            dpads_wf(dpads@),
        decreases records@.len() - i,
    {
        let rec = &records[i];
        let key = match parse_hex_keycode(&rec.keycode) {
            Some(k) => k,
            None => {
                return Err(ConfigError { index: i });
            },
        };
        let action = match parse_result_type(&rec.result_type) {
            Some(kind) => action_of(kind, rec.result_value),
            None => None,
        };
        match action {
            Some(a) => {
                match a {
                    ActionKind::FaceButton { mask } => {
                        if mask == 0x1 || mask == 0x2 || mask == 0x4 || mask == 0x8 {
                            match crate::types::find_dpad_index(&dpads, mask as u32) {
                                Some(_) => {},
                                None => {
                                    let opposite = dpad_button_opposite_key(mask as u32).unwrap();
                                    dpads.push(
                                        DpadComplement {
                                            code: mask as u32,
                                            opposite,
                                            is_pressed: false,
                                        },
                                    );
                                },
                            }
                        }
                    },
                    ActionKind::MashTrigger { code } => {
                        mash_outputs.push(code);
                    },
                    _ => {},
                }
                match find_key_index(&keys, key) {
                    Some(_) => {},
                    None => {
                        keys.push(KeyBinding { key, action: a, is_pressed: false });
                    },
                }
            },
            None => {},
        }
        i = i + 1;
    }

    let ghost all_keys = build_keys(records@, records@.len() as int);

    let mut pairs: Vec<OppositeKeyPair> = Vec::new();
    let mut p: usize = 0;
    while p < records.len()
        invariant
            p <= records@.len(),
            forall|j: int| 0 <= j < records@.len() ==> record_valid(#[trigger] records@[j]),
            keys@ == all_keys,
            all_keys == build_keys(records@, records@.len() as int),
            keys_wf(keys@),
            pairs@ == build_pairs(records@, all_keys, p as int),
            pairs_wf(pairs@),
        decreases records@.len() - p,
    {
        let rec = &records[p];
        let kind = parse_result_type(&rec.result_type);
        let is_socd = match kind {
            Some(BindingType::Socd) => true,
            _ => false,
        };
        if is_socd && 0 <= rec.result_value {
            let key = parse_hex_keycode(&rec.keycode).unwrap();
            let opp = rec.result_value as u32;
            let nk: usize = keys.len();
            assert(keys@.len() == nk as int);
            proof {
                if has_key(keys@, opp) {
                    assert(0 <= key_index(keys@, opp) < keys@.len());
                }
            }
            match find_pair_index(&pairs, key) {
                Some(_) => {},
                None => {
                    let out = match find_key_index(&keys, opp) {
                        Some(k) => match keys[k].action {
                            ActionKind::Keyboard { code } => (SocdKind::Keyboard, Some(code)),
                            ActionKind::FaceButton { mask } => (SocdKind::FaceButton, Some(mask)),
                            _ => (SocdKind::Keyboard, None::<u16>),
                        },
                        None => (SocdKind::Keyboard, None::<u16>),
                    };
                    pairs.push(
                        OppositeKeyPair {
                            primary: key,
                            is_pressed: false,
                            is_virtual_pressed: false,
                            opposite_key: opp,
                            opposite_kind: out.0,
                            opposite_mapping: out.1,
                        },
                    );
                },
            }
        }
        p = p + 1;
    }

    Ok(BindingTable { keys, pairs, dpads, mash_outputs })
}

} // verus!
