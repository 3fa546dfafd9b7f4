//! Undo and redo of the open file: what a state of the open file is, when a
//! change has settled into a step, and which keys ask for a step back or
//! forward. The history itself is [`crate::history::History`].
//!
//! What the history holds is what the file saves: a photo's whole sidecar
//! (the edit with its masks, the crop, the versions and the active one), or a
//! project's edit, crop and track. The view, the selected mask, the overlay
//! and the playhead are not part of it.

use crate::crop::Crop;
use crate::edit::{a_copy_compares_as_the_edit, equal_edits, PhotoEdit};
use crate::history::tame;
use crate::sidecar::{a_copy_equals_the_sidecar, equal_sidecars, Sidecar};
use crate::timeline::Track;
use vstd::prelude::*;
use vstd::std_specs::cmp::PartialEqSpec;

verus! {

/// A state of the open file.
#[derive(Debug)]
pub enum Snapshot {
    Photo(Box<Sidecar>),
    Project { edit: Box<PhotoEdit>, crop: Crop, track: Track },
}

impl Snapshot {
    /// The same state to the bit.
    pub open spec fn copy_of(self, other: Snapshot) -> bool {
        match (self, other) {
            (Snapshot::Photo(a), Snapshot::Photo(b)) => (*a).copy_of(*b),
            (
                Snapshot::Project { edit: a, crop: p, track: s },
                Snapshot::Project { edit: b, crop: q, track: t },
            ) => (*a).copy_of(*b) && p == q && s.clips@ == t.clips@,
            _ => false,
        }
    }

    pub open spec fn equals(self, other: Snapshot) -> bool {
        match (self, other) {
            (Snapshot::Photo(a), Snapshot::Photo(b)) => (*a).equals(*b),
            (
                Snapshot::Project { edit: a, crop: p, track: s },
                Snapshot::Project { edit: b, crop: q, track: t },
            ) => (*a).equals(*b) && p.equals(q) && s.clips@ == t.clips@,
            _ => false,
        }
    }
}

impl Clone for Snapshot {
    fn clone(&self) -> (r: Self)
        ensures
            r.copy_of(*self),
    {
        match self {
            Snapshot::Photo(sidecar) => {
                let copy: Sidecar = (**sidecar).clone();
                Snapshot::Photo(Box::new(copy))
            },
            Snapshot::Project { edit, crop, track } => {
                let copy: PhotoEdit = (**edit).clone();
                Snapshot::Project { edit: Box::new(copy), crop: *crop, track: track.clone() }
            },
        }
    }
}

impl PartialEq for Snapshot {
    fn eq(&self, other: &Self) -> (r: bool) {
        match (self, other) {
            (Snapshot::Photo(a), Snapshot::Photo(b)) => **a == **b,
            (
                Snapshot::Project { edit: a, crop: p, track: s },
                Snapshot::Project { edit: b, crop: q, track: t },
            ) => **a == **b && *p == *q && *s == *t,
            _ => false,
        }
    }
}

impl vstd::std_specs::cmp::PartialEqSpecImpl for Snapshot {
    open spec fn obeys_eq_spec() -> bool {
        true
    }

    open spec fn eq_spec(&self, other: &Self) -> bool {
        self.equals(*other)
    }
}

/// The states of a file that equal themselves: those in which every number is
/// one.
pub open spec fn sound_states() -> Set<Snapshot> {
    Set::new(|state: Snapshot| state.equals(state))
}

/// Among the states of a file in which every number is one, equality is an
/// equivalence and a clone is equal to what was cloned, so every law of the
/// history holds of them.
pub proof fn sound_states_are_tame()
    ensures
        tame(sound_states()),
{
    assert forall|a: Snapshot, b: Snapshot| #[trigger] a.eq_spec(&b) implies b.eq_spec(&a) by {
        equal_snapshots(a, b, b);
    }
    assert forall|a: Snapshot, b: Snapshot, c: Snapshot| #[trigger]
        a.eq_spec(&b) && #[trigger] b.eq_spec(&c) implies a.eq_spec(&c) by {
        equal_snapshots(a, b, c);
    }
    assert forall|a: Snapshot, b: Snapshot|
        sound_states().contains(a) && #[trigger] cloned(a, b) implies sound_states().contains(b)
        && a.eq_spec(&b) by {
        if a != b {
            assert(b.copy_of(a));
            match (a, b) {
                (Snapshot::Photo(from), Snapshot::Photo(to)) => {
                    a_copy_equals_the_sidecar(*to, *from);
                },
                (Snapshot::Project { edit: from, .. }, Snapshot::Project { edit: to, .. }) => {
                    a_copy_compares_as_the_edit(*to, *from, *from);
                    a_copy_compares_as_the_edit(*to, *from, *to);
                },
                _ => {},
            }
        }
    }
}

/// Equality of states is symmetric and transitive.
pub proof fn equal_snapshots(a: Snapshot, b: Snapshot, c: Snapshot)
    ensures
        a.equals(b) ==> b.equals(a),
        a.equals(b) && b.equals(c) ==> a.equals(c),
{
    match (a, b) {
        (Snapshot::Photo(p), Snapshot::Photo(q)) => {
            equal_sidecars(*p, *q, *q);
            match c {
                Snapshot::Photo(r) => equal_sidecars(*p, *q, *r),
                _ => {},
            }
        },
        (Snapshot::Project { edit: p, .. }, Snapshot::Project { edit: q, .. }) => {
            equal_edits(*p, *q, *q);
            match c {
                Snapshot::Project { edit: r, .. } => equal_edits(*p, *q, *r),
                _ => {},
            }
        },
        _ => {},
    }
}

/// How long after a change from the arrow keys a step is taken, in
/// nanoseconds, so a run of key presses on a slider is one step: 400
/// milliseconds.
pub const KEY_SETTLE: u128 = 400_000_000;

/// What the window knows this frame about a change being under way.
#[derive(Clone, Copy, Debug, PartialEq, Eq, Structural)]
pub struct Settle {
    /// The pointer is down on a widget: a drag is under way.
    pub pointer_busy: bool,
    /// A text field or a drag value has the keyboard.
    pub typing: bool,
    /// An arrow key is down: a slider may be stepping.
    pub arrow_key: bool,
}

impl Default for Settle {
    fn default() -> (r: Self)
        ensures
            !r.pointer_busy && !r.typing && !r.arrow_key,
    {
        Settle { pointer_busy: false, typing: false, arrow_key: false }
    }
}

/// Whether a change has settled into a step.
pub open spec fn has_settled(input: Settle, since_key_change: Option<u128>) -> bool {
    !input.pointer_busy && !input.typing && (since_key_change is None || since_key_change->0
        >= KEY_SETTLE)
}

/// Whether a change has settled into a step: not while the pointer is down
/// on a widget, not while someone types, and not until [`KEY_SETTLE`] after
/// the last change that came from the arrow keys, as the nanoseconds since
/// then say.
pub fn settled(input: Settle, since_key_change: Option<u128>) -> (r: bool)
    ensures
        r == has_settled(input, since_key_change),
        r == (!input.pointer_busy && !input.typing && (since_key_change is None
            || since_key_change->0 >= KEY_SETTLE)),
{
    !input.pointer_busy && !input.typing && match since_key_change {
        None => true,
        Some(waited) => waited >= KEY_SETTLE,
    }
}

/// A step the keys ask for.
#[derive(Clone, Copy, Debug, PartialEq, Eq, Structural)]
pub enum HistoryKey {
    Undo,
    Redo,
}

/// The keys of the history as they are this frame.
#[derive(Clone, Copy, Debug, PartialEq, Eq, Structural)]
pub struct HistoryKeys {
    /// Ctrl, or Cmd on a Mac.
    pub command: bool,
    pub shift: bool,
    pub z: bool,
    pub y: bool,
    /// A text field has the keyboard: its own undo owns the keys.
    pub typing: bool,
    /// The Save, Discard, Cancel prompt is up.
    pub prompt: bool,
}

impl Default for HistoryKeys {
    fn default() -> (r: Self)
        ensures
            !r.command && !r.shift && !r.z && !r.y && !r.typing && !r.prompt,
    {
        HistoryKeys {
            command: false,
            shift: false,
            z: false,
            y: false,
            typing: false,
            prompt: false,
        }
    }
}

impl HistoryKeys {
    /// The step the keys ask for.
    pub open spec fn asked(self) -> Option<HistoryKey> {
        if !self.command || self.typing || self.prompt {
            None
        } else if self.z {
            Some(
                if self.shift {
                    HistoryKey::Redo
                } else {
                    HistoryKey::Undo
                },
            )
        } else if self.y && !self.shift {
            Some(HistoryKey::Redo)
        } else {
            None
        }
    }
}

/// Ctrl+Z undoes; Ctrl+Shift+Z and Ctrl+Y redo. Neither acts while someone
/// types or while the prompt is up.
pub fn history_key(keys: HistoryKeys) -> (r: Option<HistoryKey>)
    ensures
        r == keys.asked(),
        r == Some(HistoryKey::Undo) <==> keys.command && !keys.typing && !keys.prompt && keys.z
            && !keys.shift,
        r == Some(HistoryKey::Redo) <==> keys.command && !keys.typing && !keys.prompt && (keys.z
            && keys.shift || !keys.z && keys.y && !keys.shift),
{
    if !keys.command || keys.typing || keys.prompt {
        return None;
    }
    if keys.z {
        return Some(
            if keys.shift {
                HistoryKey::Redo
            } else {
                HistoryKey::Undo
            },
        );
    }
    if keys.y && !keys.shift {
        Some(HistoryKey::Redo)
    } else {
        None
    }
}

/// Two states of a file are equal when everything they hold is: a photo and a
/// project never are, and a project's crop and track count as its edit does.
pub proof fn equal_states_agree(a: Snapshot, b: Snapshot)
    requires
        a.equals(b),
    ensures
        a is Photo <==> b is Photo,
        a is Photo ==> (*a->Photo_0).equals(*b->Photo_0),
        a is Project ==> (*a->edit).equals(*b->edit),
        a is Project ==> a->crop.equals(b->crop),
        a is Project ==> a->track.clips@ == b->track.clips@,
{
}

/// A copy of a state holds what the state holds, to the bit.
pub proof fn a_copied_state_is_the_state(a: Snapshot, b: Snapshot)
    requires
        a.copy_of(b),
    ensures
        a is Photo <==> b is Photo,
        a is Photo ==> (*a->Photo_0).copy_of(*b->Photo_0),
        a is Project ==> (*a->edit).copy_of(*b->edit),
        a is Project ==> a->crop == b->crop,
        a is Project ==> a->track.clips@ == b->track.clips@,
{
}

/// A change is under way while the pointer is down or someone types, and for
/// 400 milliseconds after a key; else it has settled. An arrow key that is
/// down delays nothing by itself.
pub proof fn a_change_settles_when_nothing_is_under_way(input: Settle, waited: u128)
    ensures
        input.pointer_busy || input.typing ==> !has_settled(input, None) && !has_settled(
            input,
            Some(waited),
        ),
        !input.pointer_busy && !input.typing ==> has_settled(input, None),
        waited < 400_000_000 ==> !has_settled(input, Some(waited)),
        !input.pointer_busy && !input.typing && waited >= 400_000_000 ==> has_settled(
            input,
            Some(waited),
        ),
{
}

/// Z with Ctrl alone undoes, with Shift it redoes, and Y redoes; without Ctrl,
/// while someone types or with the prompt up neither key is the history's.
pub proof fn each_history_key_does_its_thing(keys: HistoryKeys)
    ensures
        !keys.command || keys.typing || keys.prompt ==> keys.asked() is None,
        keys.command && !keys.typing && !keys.prompt ==> {
            &&& keys.z && !keys.shift ==> keys.asked() == Some(HistoryKey::Undo)
            &&& keys.z && keys.shift ==> keys.asked() == Some(HistoryKey::Redo)
            &&& !keys.z && keys.y && !keys.shift ==> keys.asked() == Some(HistoryKey::Redo)
            &&& !keys.z && !keys.y ==> keys.asked() is None
            &&& !keys.z && keys.shift ==> keys.asked() is None
        },
{
}

} // verus!
