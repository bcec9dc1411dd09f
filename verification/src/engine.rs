//! The remap engine: owns the binding tables and turns each physical key
//! transition into virtual output. Per event, the key state store is updated
//! first, then the opposite-key resolver (which may synthesize a discrete
//! event for the opposite key), then the mash-trigger flag; only then is
//! output dispatched, so a frame always reflects the fully resolved state,
//! and the synthesized event is ordered before the frame.

use vstd::prelude::*;

use crate::aggregate::{compute_frame, frame_of};
use crate::config::{load_tables, BindingTable};
use crate::dpad::{dpad_transition, dpads_after, hat_for};
use crate::masher::{
    compute_mash_active, is_mash, lemma_mash_active_unchanged, mash_active,
};
use crate::socd::{socd_pairs_after, socd_resolve, socd_synth};
use crate::types::{
    dpads_wf, find_key_index, has_key, is_dpad_code, key_index, keys_after, keys_wf,
    lemma_key_update_preserves_lookup, pairs_wf, store_transition, zero_frame, ActionKind,
    ConfigError, ConfigRecord, DpadComplement, GamepadFrame, HatEvent, KeyBinding, KeyEvent,
    OppositeKeyPair,
};

verus! {

/// Everything one physical transition asks the output sinks to do. The
/// consumer delivers the key events in order, then the hat event, then the
/// frame, so that any synthesized opposite-key output lands before the frame
/// that already reflects it.
pub struct EventOutput {
    /// Virtual keyboard events: a synthesized opposite-key event first (if
    /// any), then the key's own rebound or passed-through event.
    pub key_events: Vec<KeyEvent>,
    /// The hat-switch event of a d-pad-bound key's transition, if any.
    pub hat: Option<HatEvent>,
    /// The rebuilt gamepad frame; `None` for a keyboard-bound key, whose
    /// events never rebuild the frame.
    pub frame: Option<GamepadFrame>,
    /// The new value of the masher flag, reported only on the edge where it
    /// flipped.
    pub masher_changed: Option<bool>,
}

/// The action `key` is bound to, if it is bound.
pub open spec fn binding_of(keys: Seq<KeyBinding>, key: u32) -> Option<ActionKind> {
    if has_key(keys, key) {
        Some(keys[key_index(keys, key)].action)
    } else {
        None
    }
}

/// The d-pad direction code of `key`'s binding, if it is bound to a single
/// d-pad direction bit.
pub open spec fn dpad_event_code(keys: Seq<KeyBinding>, key: u32) -> Option<u32> {
    match binding_of(keys, key) {
        Some(ActionKind::FaceButton { mask }) => if is_dpad_code(mask as u32) {
            Some(mask as u32)
        } else {
            None
        },
        _ => None,
    }
}

/// The key's own dispatched event: its rebound keyboard event for a
/// keyboard-bound key, else the physical event passed through — unless
/// keyboard passthrough is blocked while a controller binding is active.
pub open spec fn dispatch_events(
    keys: Seq<KeyBinding>,
    key: u32,
    pressed: bool,
    block_kb: bool,
) -> Seq<KeyEvent> {
    match binding_of(keys, key) {
        Some(ActionKind::Keyboard { code }) => seq![KeyEvent { code: code as u32, pressed }],
        _ => if block_kb {
            Seq::empty()
        } else {
            seq![KeyEvent { code: key, pressed }]
        },
    }
}

/// All virtual keyboard events one transition emits, in dispatch order: the
/// synthesized opposite-key event first, then the key's own event.
pub open spec fn event_key_events(
    keys: Seq<KeyBinding>,
    pairs: Seq<OppositeKeyPair>,
    key: u32,
    pressed: bool,
    block_kb: bool,
) -> Seq<KeyEvent> {
    match socd_synth(pairs, key, pressed) {
        Some(e) => seq![e] + dispatch_events(keys, key, pressed, block_kb),
        None => dispatch_events(keys, key, pressed, block_kb),
    }
}

/// A key transition never changes which keys are bound, nor to what.
pub proof fn lemma_binding_unchanged(keys: Seq<KeyBinding>, key: u32, pressed: bool, k2: u32)
    requires
        keys_wf(keys),
    ensures
        binding_of(keys_after(keys, key, pressed), k2) == binding_of(keys, k2),
{
    if has_key(keys, key) {
        let i = key_index(keys, key);
        let e = KeyBinding { is_pressed: pressed, ..keys[i] };
        lemma_key_update_preserves_lookup(keys, i, e, k2);
    }
}

/// A freshly built key table has nothing pressed.
proof fn lemma_build_keys_unpressed(rs: Seq<ConfigRecord>, n: int)
    ensures
        forall|i: int|
            0 <= i < crate::config::build_keys(rs, n).len() ==> !(#[trigger] crate::config::build_keys(
                rs,
                n,
            )[i]).is_pressed,
    decreases n,
{
    if n > 0 {
        lemma_build_keys_unpressed(rs, n - 1);
    }
}

/// How one physical transition takes the engine from `pre` to `post` and
/// what it outputs: the key state store records the transition, the pair
/// table is resolved, the complement table follows a d-pad-bound key, the
/// masher flag equals the value recomputed over the new store (reported on its
/// edge), the key events are the synthesized opposite-key event followed by
/// the key's own dispatched event, the hat event follows a d-pad-bound key,
/// and the frame — absent for a keyboard-bound key — is derived from the
/// fully resolved new state.
pub open spec fn event_step(
    pre: RemapEngine,
    post: RemapEngine,
    key: u32,
    pressed: bool,
    out: EventOutput,
) -> bool {
    &&& post.keys_view() == keys_after(pre.keys_view(), key, pressed)
    &&& post.pairs_view() == socd_pairs_after(pre.pairs_view(), key, pressed)
    &&& post.dpads_view() == (match dpad_event_code(pre.keys_view(), key) {
        Some(code) => dpads_after(pre.dpads_view(), code, pressed),
        None => pre.dpads_view(),
    })
    &&& post.mash_view() == pre.mash_view()
    &&& post.blocks_keyboard() == pre.blocks_keyboard()
    &&& post.masher() == mash_active(keys_after(pre.keys_view(), key, pressed))
    &&& out.key_events@ == event_key_events(
        pre.keys_view(),
        pre.pairs_view(),
        key,
        pressed,
        pre.blocks_keyboard(),
    )
    &&& out.hat == (match dpad_event_code(pre.keys_view(), key) {
        Some(code) => Some(hat_for(pre.dpads_view(), code, pressed)),
        None => None::<HatEvent>,
    })
    &&& out.frame == (match binding_of(pre.keys_view(), key) {
        Some(ActionKind::Keyboard { .. }) => None::<GamepadFrame>,
        _ => Some(
            frame_of(
                keys_after(pre.keys_view(), key, pressed),
                socd_pairs_after(pre.pairs_view(), key, pressed),
            ),
        ),
    })
    &&& out.masher_changed == (if mash_active(keys_after(pre.keys_view(), key, pressed))
        != mash_active(pre.keys_view()) {
        Some(mash_active(keys_after(pre.keys_view(), key, pressed)))
    } else {
        None::<bool>
    })
}

/// The remap engine: the binding tables, the masher flag, and the keyboard
/// blocking setting, built once per load and mutated only by transitions.
pub struct RemapEngine {
    keys: Vec<KeyBinding>,
    pairs: Vec<OppositeKeyPair>,
    dpads: Vec<DpadComplement>,
    mash_outputs: Vec<u16>,
    masher_active: bool,
    block_kb_on_controller: bool,
}

impl RemapEngine {
    /// The key state store.
    pub closed spec fn keys_view(&self) -> Seq<KeyBinding> {
        self.keys@
    }

    /// The opposite-key pair table.
    pub closed spec fn pairs_view(&self) -> Seq<OppositeKeyPair> {
        self.pairs@
    }

    /// The d-pad complement table.
    pub closed spec fn dpads_view(&self) -> Seq<DpadComplement> {
        self.dpads@
    }

    /// The configured mash-output codes, in record order.
    pub closed spec fn mash_view(&self) -> Seq<u16> {
        self.mash_outputs@
    }

    /// The masher flag.
    pub closed spec fn masher(&self) -> bool {
        self.masher_active
    }

    /// Whether keyboard passthrough is suppressed for controller-bound keys.
    pub closed spec fn blocks_keyboard(&self) -> bool {
        self.block_kb_on_controller
    }

    /// Well-formedness: each table binds a key at most once, the complement
    /// table pairs real directions, and the masher flag equals the value
    /// recomputed from the store.
    pub closed spec fn inv(&self) -> bool {
        &&& keys_wf(self.keys@)
        &&& pairs_wf(self.pairs@)
        &&& dpads_wf(self.dpads@)
        &&& self.masher_active == mash_active(self.keys@)
    }

    /// An engine with no bindings at all.
    pub fn new() -> (r: RemapEngine)
        ensures
            r.inv(),
            r.keys_view() == Seq::<KeyBinding>::empty(),
            r.pairs_view() == Seq::<OppositeKeyPair>::empty(),
            r.dpads_view() == Seq::<DpadComplement>::empty(),
            r.mash_view() == Seq::<u16>::empty(),
            !r.masher(),
            !r.blocks_keyboard(),
    {
        RemapEngine {
            keys: Vec::new(),
            pairs: Vec::new(),
            dpads: Vec::new(),
            mash_outputs: Vec::new(),
            masher_active: false,
            block_kb_on_controller: false,
        }
    }

    /// Builds an engine from the configuration records. Fails on the first
    /// record whose keycode is not well-formed hexadecimal text.
    pub fn load(records: &Vec<ConfigRecord>, block_kb_on_controller: bool) -> (r: Result<
        RemapEngine,
        ConfigError,
    >)
        ensures
            match r {
                Ok(engine) => {
                    &&& engine.inv()
                    &&& engine.keys_view() == crate::config::build_keys(
                        records@,
                        records@.len() as int,
                    )
                    &&& engine.pairs_view() == crate::config::build_pairs(
                        records@,
                        crate::config::build_keys(records@, records@.len() as int),
                        records@.len() as int,
                    )
                    &&& engine.dpads_view() == crate::config::build_dpads(
                        records@,
                        records@.len() as int,
                    )
                    &&& engine.mash_view() == crate::config::build_mash(
                        records@,
                        records@.len() as int,
                    )
                    &&& !engine.masher()
                    &&& engine.blocks_keyboard() == block_kb_on_controller
                    &&& forall|i: int|
                        0 <= i < records@.len() ==> crate::config::record_valid(
                            #[trigger] records@[i],
                        )
                },
                Err(e) => {
                    &&& e.index < records@.len()
                    &&& !crate::config::record_valid(records@[e.index as int])
                    &&& forall|j: int|
                        0 <= j < e.index ==> crate::config::record_valid(#[trigger] records@[j])
                },
            },
    {
        let tables: BindingTable = match load_tables(records) {
            Ok(t) => t,
            Err(e) => {
                return Err(e);
            },
        };
        proof {
            lemma_build_keys_unpressed(records@, records@.len() as int);
            if crate::masher::has_mash(tables.keys@) {
                let w = choose|i: int|
                    0 <= i < tables.keys@.len() && is_mash((#[trigger] tables.keys@[i]).action);
                assert(!tables.keys@[w].is_pressed);
            }
        }
        let masher_active = compute_mash_active(&tables.keys);
        let engine = RemapEngine {
            keys: tables.keys,
            pairs: tables.pairs,
            dpads: tables.dpads,
            mash_outputs: tables.mash_outputs,
            masher_active,
            block_kb_on_controller,
        };
        Ok(engine)
    }

    /// Handles one physical key transition: updates the key state store,
    /// resolves the opposite-key pair, recomputes the masher flag, and
    /// dispatches output. A keyboard-bound key short-circuits: it emits only
    /// its rebound key event and never rebuilds the gamepad frame.
    pub fn on_physical_event(&mut self, key: u32, pressed: bool) -> (out: EventOutput)
        requires
            old(self).inv(),
        ensures
            final(self).inv(),
            event_step(*old(self), *final(self), key, pressed, out),
            // A keyboard-bound key never triggers a gamepad-frame rebuild.
            binding_of(old(self).keys_view(), key) matches Some(ActionKind::Keyboard { .. })
                ==> out.frame is None,
    {
        let ghost k0 = self.keys@;
        let ghost pr0 = self.pairs@;

        // State updates come first: store, then pair resolution.
        store_transition(&mut self.keys, key, pressed);
        let synth = socd_resolve(&mut self.pairs, key, pressed);

        proof {
            lemma_binding_unchanged(k0, key, pressed, key);
        }

        let mut key_events: Vec<KeyEvent> = Vec::new();
        match synth {
            Some(e) => key_events.push(e),
            None => {},
        }

        // The binding is looked up in the updated store; transitions never
        // change bindings, so it equals the binding before the event.
        let nk: usize = self.keys.len();
        assert(self.keys@.len() == nk as int);
        proof {
            if has_key(self.keys@, key) {
                assert(0 <= key_index(self.keys@, key) < self.keys@.len());
            }
        }
        let binding: Option<ActionKind> = match find_key_index(&self.keys, key) {
            Some(i) => Some(self.keys[i].action),
            None => None,
        };
        proof {
            assert(binding == binding_of(k0, key));
        }

        // Masher flag: recomputed only after a transition of a mash-trigger
        // key; other transitions cannot change it.
        let mut masher_changed: Option<bool> = None;
        let is_mash_bound = match binding {
            Some(ActionKind::MashTrigger { .. }) => true,
            _ => false,
        };
        if is_mash_bound {
            let new_active = compute_mash_active(&self.keys);
            if new_active != self.masher_active {
                self.masher_active = new_active;
                masher_changed = Some(new_active);
            }
        } else {
            proof {
                lemma_mash_active_unchanged(k0, key, pressed);
            }
        }

        // Keyboard short-circuit: emit the rebound key event alone.
        match binding {
            Some(ActionKind::Keyboard { code }) => {
                key_events.push(KeyEvent { code: code as u32, pressed });
                proof {
                    assert(key_events@ =~= event_key_events(
                        k0,
                        pr0,
                        key,
                        pressed,
                        self.block_kb_on_controller,
                    ));
                }
                return EventOutput { key_events, hat: None, frame: None, masher_changed };
            },
            _ => {},
        }

        // Hat event for a d-pad-bound key, against the complement table.
        let mut hat: Option<HatEvent> = None;
        match binding {
            Some(ActionKind::FaceButton { mask }) => {
                if mask == 0x1 || mask == 0x2 || mask == 0x4 || mask == 0x8 {
                    hat = Some(dpad_transition(&mut self.dpads, mask as u32, pressed));
                }
            },
            _ => {},
        }

        // The frame is rebuilt from scratch out of the resolved state.
        let frame = compute_frame(&self.keys, &self.pairs);

        if !self.block_kb_on_controller {
            key_events.push(KeyEvent { code: key, pressed });
        }
        proof {
            assert(key_events@ =~= event_key_events(
                k0,
                pr0,
                key,
                pressed,
                self.block_kb_on_controller,
            ));
        }
        EventOutput { key_events, hat, frame: Some(frame), masher_changed }
    }

    /// Synthetic injection for the mash automation loop: a slot below the
    /// mash-output count toggles that output; any other slot value is the
    /// sentinel that releases every mash output.
    pub fn inject(&self, slot: u8, pressed: bool) -> (out: Vec<KeyEvent>)
        ensures
            (slot as int) < self.mash_view().len() ==> out@ == seq![
                KeyEvent { code: self.mash_view()[slot as int] as u32, pressed },
            ],
            (slot as int) >= self.mash_view().len() ==> {
                &&& out@.len() == self.mash_view().len()
                &&& forall|i: int|
                    0 <= i < out@.len() ==> out@[i] == (KeyEvent {
                        code: self.mash_view()[i] as u32,
                        pressed: false,
                    })
            },
    {
        let mut out: Vec<KeyEvent> = Vec::new();
        if (slot as usize) < self.mash_outputs.len() {
            out.push(KeyEvent { code: self.mash_outputs[slot as usize] as u32, pressed });
            assert(out@ =~= seq![
                KeyEvent { code: self.mash_outputs@[slot as int] as u32, pressed },
            ]);
        } else {
            let mut i: usize = 0;
            while i < self.mash_outputs.len()
                invariant
                    i <= self.mash_outputs@.len(),
                    self.mash_outputs@ == self.mash_view(),
                    out@.len() == i,
                    forall|j: int|
                        0 <= j < i ==> out@[j] == (KeyEvent {
                            code: self.mash_outputs@[j] as u32,
                            pressed: false,
                        }),
                decreases self.mash_outputs@.len() - i,
            {
                out.push(KeyEvent { code: self.mash_outputs[i] as u32, pressed: false });
                i = i + 1;
            }
        }
        out
    }

    /// Returns every key of the table to the released state, clears every
    /// virtual press, and clears the masher flag.
    pub fn reset(&mut self)
        requires
            old(self).inv(),
        ensures
            final(self).inv(),
            final(self).keys_view() == reset_keys(old(self).keys_view()),
            final(self).pairs_view() == reset_pairs(old(self).pairs_view()),
            final(self).dpads_view() == reset_dpads(old(self).dpads_view()),
            final(self).mash_view() == old(self).mash_view(),
            final(self).blocks_keyboard() == old(self).blocks_keyboard(),
            !final(self).masher(),
    {
        let ghost k0 = self.keys@;
        let ghost pr0 = self.pairs@;
        let ghost d0 = self.dpads@;
        let ghost m0 = self.mash_outputs@;
        let ghost b0 = self.block_kb_on_controller;

        let mut i: usize = 0;
        while i < self.keys.len()
            invariant
                i <= self.keys@.len(),
                self.keys@.len() == k0.len(),
                forall|j: int| 0 <= j < i ==> self.keys@[j] == reset_keys(k0)[j],
                forall|j: int| i <= j < k0.len() ==> self.keys@[j] == k0[j],
                self.pairs@ == pr0,
                self.dpads@ == d0,
                self.mash_outputs@ == m0,
                self.block_kb_on_controller == b0,
            decreases self.keys@.len() - i,
        {
            let mut e = self.keys[i];
            e.is_pressed = false;
            self.keys.set(i, e);
            i = i + 1;
        }
        assert(self.keys@ =~= reset_keys(k0));

        let mut p: usize = 0;
        while p < self.pairs.len()
            invariant
                p <= self.pairs@.len(),
                self.pairs@.len() == pr0.len(),
                forall|j: int| 0 <= j < p ==> self.pairs@[j] == reset_pairs(pr0)[j],
                forall|j: int| p <= j < pr0.len() ==> self.pairs@[j] == pr0[j],
                self.keys@ == reset_keys(k0),
                self.dpads@ == d0,
                self.mash_outputs@ == m0,
                self.block_kb_on_controller == b0,
            decreases self.pairs@.len() - p,
        {
            let mut e = self.pairs[p];
            e.is_pressed = false;
            e.is_virtual_pressed = false;
            self.pairs.set(p, e);
            p = p + 1;
        }
        assert(self.pairs@ =~= reset_pairs(pr0));

        let mut d: usize = 0;
        while d < self.dpads.len()
            invariant
                d <= self.dpads@.len(),
                self.dpads@.len() == d0.len(),
                forall|j: int| 0 <= j < d ==> self.dpads@[j] == reset_dpads(d0)[j],
                forall|j: int| d <= j < d0.len() ==> self.dpads@[j] == d0[j],
                self.keys@ == reset_keys(k0),
                self.pairs@ == reset_pairs(pr0),
                self.mash_outputs@ == m0,
                self.block_kb_on_controller == b0,
            decreases self.dpads@.len() - d,
        {
            let mut e = self.dpads[d];
            e.is_pressed = false;
            self.dpads.set(d, e);
            d = d + 1;
        }
        assert(self.dpads@ =~= reset_dpads(d0));

        self.masher_active = false;
        proof {
            assert(keys_wf(self.keys@));
            assert(pairs_wf(self.pairs@));
            assert(dpads_wf(self.dpads@));
            if crate::masher::has_mash(self.keys@) {
                let w = choose|j: int|
                    0 <= j < self.keys@.len() && is_mash((#[trigger] self.keys@[j]).action);
                assert(!self.keys@[w].is_pressed);
            }
        }
    }
}

/// The key table with every key released.
pub open spec fn reset_keys(keys: Seq<KeyBinding>) -> Seq<KeyBinding> {
    Seq::new(keys.len(), |i: int| KeyBinding { is_pressed: false, ..keys[i] })
}

/// The pair table with every physical and virtual press cleared.
pub open spec fn reset_pairs(pairs: Seq<OppositeKeyPair>) -> Seq<OppositeKeyPair> {
    Seq::new(
        pairs.len(),
        |i: int| OppositeKeyPair { is_pressed: false, is_virtual_pressed: false, ..pairs[i] },
    )
}

/// The complement table with every direction released.
pub open spec fn reset_dpads(dpads: Seq<DpadComplement>) -> Seq<DpadComplement> {
    Seq::new(dpads.len(), |i: int| DpadComplement { is_pressed: false, ..dpads[i] })
}

proof fn lemma_reset_face_bits(keys: Seq<KeyBinding>, n: int)
    requires
        n <= keys.len(),
    ensures
        crate::aggregate::face_bits_upto(reset_keys(keys), n) == 0,
    decreases n,
{
    if n > 0 {
        lemma_reset_face_bits(keys, n - 1);
    }
}

proof fn lemma_reset_trigger(keys: Seq<KeyBinding>, n: int, left: bool)
    requires
        n <= keys.len(),
    ensures
        crate::aggregate::trigger_upto(reset_keys(keys), n, left) == 0,
    decreases n,
{
    if n > 0 {
        lemma_reset_trigger(keys, n - 1, left);
    }
}

proof fn lemma_reset_axis(keys: Seq<KeyBinding>, n: int, axis: crate::types::Axis)
    requires
        n <= keys.len(),
    ensures
        crate::aggregate::axis_value_upto(reset_keys(keys), n, axis) == 0,
    decreases n,
{
    if n > 0 {
        lemma_reset_axis(keys, n - 1, axis);
    }
}

proof fn lemma_reset_socd_bits(pairs: Seq<OppositeKeyPair>, n: int)
    requires
        n <= pairs.len(),
    ensures
        crate::aggregate::socd_bits_upto(reset_pairs(pairs), n, 0) == 0,
    decreases n,
{
    if n > 0 {
        lemma_reset_socd_bits(pairs, n - 1);
        let q = reset_pairs(pairs);
        let e = q[n - 1];
        match e.opposite_kind {
            crate::types::SocdKind::FaceButton => {
                match e.opposite_mapping {
                    Some(mask) => {
                        if crate::types::has_pair(q, e.opposite_key) {
                            assert(!q[crate::types::pair_index(q, e.opposite_key)]
                                .is_virtual_pressed);
                            assert(0u16 & !mask == 0) by (bit_vector);
                        }
                    },
                    None => {},
                }
            },
            crate::types::SocdKind::Keyboard => {},
        }
    }
}

/// Law: the fully reset state derives the all-neutral gamepad frame, so the
/// frame flushed once on stop is exactly the frame of the state left behind.
pub proof fn lemma_reset_frame_zero(keys: Seq<KeyBinding>, pairs: Seq<OppositeKeyPair>)
    ensures
        frame_of(reset_keys(keys), reset_pairs(pairs)) == zero_frame(),
{
    lemma_reset_face_bits(keys, keys.len() as int);
    lemma_reset_trigger(keys, keys.len() as int, true);
    lemma_reset_trigger(keys, keys.len() as int, false);
    lemma_reset_axis(keys, keys.len() as int, crate::types::Axis::Lx);
    lemma_reset_axis(keys, keys.len() as int, crate::types::Axis::Ly);
    lemma_reset_axis(keys, keys.len() as int, crate::types::Axis::Rx);
    lemma_reset_axis(keys, keys.len() as int, crate::types::Axis::Ry);
    lemma_reset_socd_bits(pairs, pairs.len() as int);
}

/// Law: a transition is idempotent on the whole engine state — delivering
/// the same `(key, pressed)` transition twice in a row leaves exactly the
/// state of delivering it once, so both deliveries derive the same gamepad
/// frame (no bit or value toggles on repeat).
pub proof fn lemma_transition_idempotent(
    keys: Seq<KeyBinding>,
    pairs: Seq<OppositeKeyPair>,
    dpads: Seq<DpadComplement>,
    key: u32,
    code: u32,
    pressed: bool,
)
    requires
        keys_wf(keys),
        pairs_wf(pairs),
        dpads_wf(dpads),
    ensures
        keys_after(keys_after(keys, key, pressed), key, pressed) == keys_after(
            keys,
            key,
            pressed,
        ),
        socd_pairs_after(socd_pairs_after(pairs, key, pressed), key, pressed) == socd_pairs_after(
            pairs,
            key,
            pressed,
        ),
        dpads_after(dpads_after(dpads, code, pressed), code, pressed) == dpads_after(
            dpads,
            code,
            pressed,
        ),
        frame_of(
            keys_after(keys_after(keys, key, pressed), key, pressed),
            socd_pairs_after(socd_pairs_after(pairs, key, pressed), key, pressed),
        ) == frame_of(keys_after(keys, key, pressed), socd_pairs_after(pairs, key, pressed)),
{
    // Key table: rewriting the same pressed flag is a no-op.
    if has_key(keys, key) {
        let i = key_index(keys, key);
        let e = KeyBinding { is_pressed: pressed, ..keys[i] };
        let q = keys.update(i, e);
        lemma_key_update_preserves_lookup(keys, i, e, key);
        let e2 = KeyBinding { is_pressed: pressed, ..q[key_index(q, key)] };
        assert(e2 == e);
        assert(q.update(key_index(q, key), e2) =~= q);
    }

    // Pair table: the second resolution finds the pair already resolved, so
    // neither rule fires again (or it rewrites the same values).
    if crate::types::has_pair(pairs, key) {
        let i = crate::types::pair_index(pairs, key);
        let e = OppositeKeyPair { is_pressed: pressed, is_virtual_pressed: pressed, ..pairs[i] };
        let q1 = pairs.update(i, e);
        crate::socd::lemma_update_preserves_lookup(pairs, i, e, key);
        crate::socd::lemma_update_preserves_lookup(pairs, i, e, e.opposite_key);
        let p1 = socd_pairs_after(pairs, key, pressed);
        if !crate::types::has_pair(q1, e.opposite_key) {
            assert(p1 == q1);
            assert(p1[i] == e);
            let e2 = OppositeKeyPair {
                is_pressed: pressed,
                is_virtual_pressed: pressed,
                ..p1[crate::types::pair_index(p1, key)]
            };
            assert(e2 == e);
            assert(p1.update(i, e2) =~= p1);
            crate::socd::lemma_update_preserves_lookup(p1, i, e2, key);
            crate::socd::lemma_update_preserves_lookup(p1, i, e2, e.opposite_key);
            assert(socd_pairs_after(p1, key, pressed) =~= p1);
        } else {
            let j = crate::types::pair_index(q1, e.opposite_key);
            let o = q1[j];
            if j == i {
                // A key paired with itself: both rules read the entry just
                // rewritten, and fire the same way on repeat.
                assert(o == e);
                if pressed {
                    let of = OppositeKeyPair { is_virtual_pressed: false, ..e };
                    assert(p1 == q1.update(i, of));
                    crate::socd::lemma_update_preserves_lookup(q1, i, of, key);
                    let e2 = OppositeKeyPair {
                        is_pressed: pressed,
                        is_virtual_pressed: pressed,
                        ..p1[crate::types::pair_index(p1, key)]
                    };
                    assert(e2 == e);
                    let q2 = p1.update(i, e2);
                    assert(q2 =~= q1);
                    crate::socd::lemma_update_preserves_lookup(p1, i, e2, key);
                    assert(socd_pairs_after(p1, key, pressed) =~= q2.update(i, of));
                    assert(q2.update(i, of) =~= p1);
                } else {
                    assert(p1 == q1);
                    let e2 = OppositeKeyPair {
                        is_pressed: pressed,
                        is_virtual_pressed: pressed,
                        ..p1[crate::types::pair_index(p1, key)]
                    };
                    assert(e2 == e);
                    assert(p1.update(i, e2) =~= p1);
                    crate::socd::lemma_update_preserves_lookup(p1, i, e2, key);
                    assert(socd_pairs_after(p1, key, pressed) =~= p1);
                }
            } else {
                let rule_release = pressed && o.is_pressed && o.is_virtual_pressed;
                let rule_restore = !pressed && o.is_pressed;
                if rule_release {
                    let of = OppositeKeyPair { is_virtual_pressed: false, ..o };
                    assert(p1 == q1.update(j, of));
                    crate::socd::lemma_update_preserves_lookup(q1, j, of, key);
                    crate::socd::lemma_update_preserves_lookup(q1, j, of, e.opposite_key);
                } else if rule_restore {
                    let ot = OppositeKeyPair { is_virtual_pressed: true, ..o };
                    assert(p1 == q1.update(j, ot));
                    crate::socd::lemma_update_preserves_lookup(q1, j, ot, key);
                    crate::socd::lemma_update_preserves_lookup(q1, j, ot, e.opposite_key);
                } else {
                    assert(p1 == q1);
                }
                assert(p1[i] == e);
                assert(crate::types::pair_index(p1, key) == i);
                assert(crate::types::pair_index(p1, e.opposite_key) == j);
                let e2 = OppositeKeyPair {
                    is_pressed: pressed,
                    is_virtual_pressed: pressed,
                    ..p1[i]
                };
                assert(e2 == e);
                let q2 = p1.update(i, e2);
                assert(q2 =~= p1);
                crate::socd::lemma_update_preserves_lookup(p1, i, e2, key);
                crate::socd::lemma_update_preserves_lookup(p1, i, e2, e.opposite_key);
                let o2 = q2[crate::types::pair_index(q2, e.opposite_key)];
                assert(o2 == p1[j]);
                if pressed && o2.is_pressed && o2.is_virtual_pressed {
                    // The first press already cleared the opposite's virtual
                    // state, so this rule cannot fire again.
                    assert(!rule_release && !rule_restore);
                    assert(o2 == o);
                    assert(false);
                } else if !pressed && o2.is_pressed {
                    let ot2 = OppositeKeyPair { is_virtual_pressed: true, ..o2 };
                    assert(rule_restore);
                    assert(ot2 == p1[j]);
                    assert(socd_pairs_after(p1, key, pressed) =~= q2.update(
                        crate::types::pair_index(q2, e.opposite_key),
                        ot2,
                    ));
                    assert(q2.update(crate::types::pair_index(q2, e.opposite_key), ot2) =~= p1);
                } else {
                    assert(socd_pairs_after(p1, key, pressed) =~= q2);
                }
            }
        }
        assert(socd_pairs_after(p1, key, pressed) =~= p1);
    }

    // Complement table: rewriting the same pressed flag is a no-op.
    if crate::types::has_dpad(dpads, code) {
        let i = crate::types::dpad_index(dpads, code);
        let e = DpadComplement { is_pressed: pressed, ..dpads[i] };
        let q = dpads.update(i, e);
        crate::dpad::lemma_dpad_update_preserves_lookup(dpads, i, e, code);
        let e2 = DpadComplement { is_pressed: pressed, ..q[crate::types::dpad_index(q, code)] };
        assert(e2 == e);
        assert(q.update(crate::types::dpad_index(q, code), e2) =~= q);
    }
}

/// The interceptor façade a platform adapter drives: a remap engine plus
/// its running state. The binding tables are built exactly once per start
/// and are read-only until the next start; stopping resets every key to
/// released, and an event delivered while stopped has no effect and no
/// output.
pub struct KeyInterceptor {
    /// The engine; replaced wholesale on start, reset on stop.
    pub engine: RemapEngine,
    /// Whether events are currently intercepted.
    pub running: bool,
}

impl KeyInterceptor {
    /// The engine tables are well formed.
    pub open spec fn inv(&self) -> bool {
        self.engine.inv()
    }

    /// A stopped interceptor with no bindings.
    pub fn new() -> (r: KeyInterceptor)
        ensures
            r.inv(),
            !r.running,
            r.engine.keys_view() == Seq::<KeyBinding>::empty(),
            r.engine.pairs_view() == Seq::<OppositeKeyPair>::empty(),
            r.engine.dpads_view() == Seq::<DpadComplement>::empty(),
            r.engine.mash_view() == Seq::<u16>::empty(),
            !r.engine.masher(),
    {
        KeyInterceptor { engine: RemapEngine::new(), running: false }
    }

    /// Builds the binding tables from the configuration records and starts
    /// intercepting. On a malformed keycode the interceptor reports the
    /// first offending record and stays stopped.
    pub fn start(&mut self, records: &Vec<ConfigRecord>, block_kb_on_controller: bool) -> (r:
        Result<(), ConfigError>)
        requires
            old(self).inv(),
        ensures
            final(self).inv(),
            match r {
                Ok(_) => {
                    &&& final(self).running
                    &&& final(self).engine.keys_view() == crate::config::build_keys(
                        records@,
                        records@.len() as int,
                    )
                    &&& final(self).engine.pairs_view() == crate::config::build_pairs(
                        records@,
                        crate::config::build_keys(records@, records@.len() as int),
                        records@.len() as int,
                    )
                    &&& final(self).engine.dpads_view() == crate::config::build_dpads(
                        records@,
                        records@.len() as int,
                    )
                    &&& final(self).engine.mash_view() == crate::config::build_mash(
                        records@,
                        records@.len() as int,
                    )
                    &&& !final(self).engine.masher()
                    &&& final(self).engine.blocks_keyboard() == block_kb_on_controller
                },
                Err(e) => {
                    &&& !final(self).running
                    &&& e.index < records@.len()
                    &&& !crate::config::record_valid(records@[e.index as int])
                    &&& forall|j: int|
                        0 <= j < e.index ==> crate::config::record_valid(#[trigger] records@[j])
                },
            },
    {
        match RemapEngine::load(records, block_kb_on_controller) {
            Ok(engine) => {
                self.engine = engine;
                self.running = true;
                Ok(())
            },
            Err(e) => {
                self.running = false;
                Err(e)
            },
        }
    }

    /// Stops intercepting: every key returns to released, every virtual
    /// press is cleared, the masher flag clears, and the all-neutral
    /// frame — exactly the frame of the state left behind — is returned to
    /// be flushed once.
    pub fn stop(&mut self) -> (frame: GamepadFrame)
        requires
            old(self).inv(),
        ensures
            final(self).inv(),
            !final(self).running,
            final(self).engine.keys_view() == reset_keys(old(self).engine.keys_view()),
            final(self).engine.pairs_view() == reset_pairs(old(self).engine.pairs_view()),
            final(self).engine.dpads_view() == reset_dpads(old(self).engine.dpads_view()),
            final(self).engine.mash_view() == old(self).engine.mash_view(),
            !final(self).engine.masher(),
            frame == zero_frame(),
            frame == frame_of(final(self).engine.keys_view(), final(self).engine.pairs_view()),
    {
        self.engine.reset();
        self.running = false;
        proof {
            lemma_reset_frame_zero(old(self).engine.keys_view(), old(self).engine.pairs_view());
        }
        GamepadFrame::zero()
    }

    /// Whether events are currently intercepted.
    pub fn is_running(&self) -> (r: bool)
        ensures
            r == self.running,
    {
        self.running
    }

    /// Delivers one physical key transition. While stopped, the state is
    /// untouched and nothing is output.
    pub fn on_physical_event(&mut self, key: u32, pressed: bool) -> (out: EventOutput)
        requires
            old(self).inv(),
        ensures
            final(self).inv(),
            final(self).running == old(self).running,
            !old(self).running ==> {
                &&& final(self).engine == old(self).engine
                &&& out.key_events@ == Seq::<KeyEvent>::empty()
                &&& out.hat is None
                &&& out.frame is None
                &&& out.masher_changed is None
            },
            old(self).running ==> event_step(old(self).engine, final(self).engine, key, pressed, out),
            old(self).running && (binding_of(old(self).engine.keys_view(), key) matches Some(
                ActionKind::Keyboard { .. },
            )) ==> out.frame is None,
    {
        if !self.running {
            return EventOutput {
                key_events: Vec::new(),
                hat: None,
                frame: None,
                masher_changed: None,
            };
        }
        self.engine.on_physical_event(key, pressed)
    }

    /// Synthetic injection for the mash automation loop; no output while
    /// stopped.
    pub fn inject(&self, slot: u8, pressed: bool) -> (out: Vec<KeyEvent>)
        ensures
            !self.running ==> out@ == Seq::<KeyEvent>::empty(),
            self.running && (slot as int) < self.engine.mash_view().len() ==> out@ == seq![
                KeyEvent { code: self.engine.mash_view()[slot as int] as u32, pressed },
            ],
            self.running && (slot as int) >= self.engine.mash_view().len() ==> {
                &&& out@.len() == self.engine.mash_view().len()
                &&& forall|i: int|
                    0 <= i < out@.len() ==> out@[i] == (KeyEvent {
                        code: self.engine.mash_view()[i] as u32,
                        pressed: false,
                    })
            },
    {
        if !self.running {
            return Vec::new();
        }
        self.engine.inject(slot, pressed)
    }
}

} // verus!
