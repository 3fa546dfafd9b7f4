//! The Masks section of the Adjust tab: the list of masks, the buttons that
//! make one of each source, and under the selected mask its opacity, invert
//! and overlay, its components with their operators, and the numbers of each
//! source.
//!
//! Selecting a mask is what points the other sections at it and what shows
//! its handles on the picture. The list operations keep the selection on the
//! same mask while the list changes around it. What the widgets said this
//! frame comes in as plain values; what follows from it is here.

use crate::adjust::AdjustState;
use crate::brush::Brush;
use crate::mask::{
    free_name, name_taken, numbered, ColourRange, Component, Edge, LinearGradient, LuminanceRange,
    Mask, MaskOp, MaskSource, RadialGradient, Refine, MAX_COMPONENTS, MAX_MASKS,
};
use crate::num::{Single, HUNDRED};
use crate::text::{ascii_lowercase, chars, same_ignoring_ascii_case, trim, trimmed};
use vstd::prelude::*;
use vstd::string::*;

verus! {

/// What a button of a brush component asked for. The session carries it out
/// once the section is drawn.
#[derive(Clone, Copy, Debug, PartialEq, Eq, Structural)]
pub enum BrushRequest {
    /// The Paint button of this component: arm it, or put it down.
    Paint(usize),
    /// Clear strokes.
    Clear(usize),
}

/// What the section did this frame.
#[derive(Clone, Copy, Debug, PartialEq, Eq, Structural)]
pub struct Outcome {
    /// The edit changed: the picture and the file are stale.
    pub edited: bool,
    /// Only what is shown changed (the selection, the overlay): the picture
    /// is stale and the file is not.
    pub view_changed: bool,
    pub brush: Option<BrushRequest>,
}

impl Default for Outcome {
    fn default() -> (r: Self)
        ensures
            r == nothing(),
    {
        Outcome { edited: false, view_changed: false, brush: None }
    }
}

/// A section that did nothing.
pub open spec fn nothing() -> Outcome {
    Outcome { edited: false, view_changed: false, brush: None }
}

impl Outcome {
    /// What two parts did together; the later request counts.
    pub open spec fn taking(self, part: Outcome) -> Outcome {
        Outcome {
            edited: self.edited || part.edited,
            view_changed: self.view_changed || part.view_changed,
            brush: if part.brush is Some {
                part.brush
            } else {
                self.brush
            },
        }
    }

    /// Takes in what a part of the section did, so nothing a part asks for
    /// is lost on the way to the session.
    pub fn take(&mut self, part: Outcome)
        ensures
            *final(self) == old(self).taking(part),
    {
        self.edited = self.edited || part.edited;
        self.view_changed = self.view_changed || part.view_changed;
        if part.brush.is_some() {
            self.brush = part.brush;
        }
    }
}

/// The five sources a new mask or a new component starts from, with the
/// word a button and a mask name use for each.
pub fn new_sources() -> (r: [(&'static str, MaskSource); 5])
    ensures
        r@[0].0@ == "Linear"@ && r@[0].1 == MaskSource::Linear(LinearGradient::default_spec()),
        r@[1].0@ == "Radial"@ && r@[1].1 == MaskSource::Radial(RadialGradient::default_spec()),
        r@[2].0@ == "Luminance"@ && r@[2].1 == MaskSource::Luminance(LuminanceRange::default_spec()),
        r@[3].0@ == "Colour"@ && r@[3].1 == MaskSource::Colour(ColourRange::default_spec()),
        r@[4].0@ == "Brush"@,
        r@[4].1 matches MaskSource::Brush(brush) && brush@.len() == 0,
{
    [
        ("Linear", MaskSource::Linear(LinearGradient::default())),
        ("Radial", MaskSource::Radial(RadialGradient::default())),
        ("Luminance", MaskSource::Luminance(LuminanceRange::default())),
        ("Colour", MaskSource::Colour(ColourRange::default())),
        ("Brush", MaskSource::Brush(Brush::default())),
    ]
}

/// A new mask of one component under a name.
pub open spec fn fresh(mask: Mask, name: Seq<char>, source: MaskSource) -> bool {
    &&& mask.name@ == name
    &&& mask.enabled && !mask.invert
    &&& mask.components@ == seq![Component { op: MaskOp::Add, source, invert: false }]
    &&& mask.opacity.bits == HUNDRED
    &&& mask.adjust.at_rest()
    &&& mask.refine == Refine::default_spec()
    &&& mask.edge == Edge::default_spec()
}

/// The first name of a kind that no mask has, and its number.
pub open spec fn first_free(masks: Seq<Mask>, base: Seq<char>, name: Seq<char>, number: nat) -> bool {
    &&& number >= 1
    &&& name == numbered(base, number)
    &&& !name_taken(masks, name)
    &&& forall|k: nat| 1 <= k < number ==> name_taken(masks, #[trigger] numbered(base, k))
}

/// Adds a mask of one component at the end of the list under a free name and
/// returns its index, or `None` when the list is full.
pub fn add_mask(masks: &mut Vec<Mask>, base: &str, source: MaskSource) -> (r: Option<usize>)
    ensures
        old(masks)@.len() >= MAX_MASKS ==> r is None && final(masks)@ == old(masks)@,
        old(masks)@.len() < MAX_MASKS ==> {
            &&& r == Some(old(masks)@.len() as usize)
            &&& final(masks)@.len() == old(masks)@.len() + 1
            &&& final(masks)@.drop_last() == old(masks)@
            &&& fresh(final(masks)@.last(), final(masks)@.last().name@, source)
            &&& exists|number: nat| #[trigger]
                first_free(old(masks)@, base@, final(masks)@.last().name@, number)
        },
{
    if masks.len() >= MAX_MASKS {
        return None;
    }
    let name: String = free_name(masks, base);
    proof {
        let number = choose|number: nat|
            {
                &&& 1 <= number <= masks@.len() + 1
                &&& name@ == #[trigger] numbered(base@, number)
                &&& forall|k: nat|
                    1 <= k < number ==> name_taken(masks@, #[trigger] numbered(base@, k))
            };
        assert(first_free(masks@, base@, name@, number));
    }
    masks.push(Mask::new(name.as_str(), source));
    assert(masks@.drop_last() =~= old(masks)@);
    Some(masks.len() - 1)
}

/// The selection after a mask was removed.
pub open spec fn selection_after_removal(selected: Option<usize>, index: int) -> Option<usize> {
    match selected {
        Some(s) => if s == index {
            None
        } else if s > index {
            Some((s - 1) as usize)
        } else {
            selected
        },
        None => None,
    }
}

/// Removes a mask and keeps the selection on the mask it was on; removing
/// the selected mask selects nothing.
pub fn remove_mask(masks: &mut Vec<Mask>, selected: &mut Option<usize>, index: usize)
    ensures
        index >= old(masks)@.len() ==> final(masks)@ == old(masks)@ && *final(selected) == *old(
            selected,
        ),
        index < old(masks)@.len() ==> {
            &&& final(masks)@ == old(masks)@.remove(index as int)
            &&& *final(selected) == selection_after_removal(*old(selected), index as int)
        },
{
    if index >= masks.len() {
        return;
    }
    masks.remove(index);
    *selected = match *selected {
        Some(s) => {
            if s == index {
                None
            } else if s > index {
                Some(s - 1)
            } else {
                Some(s)
            }
        },
        None => None,
    };
}

/// The list with two masks in each other's place.
pub open spec fn swapped(masks: Seq<Mask>, a: int, b: int) -> Seq<Mask> {
    masks.update(a, masks[b]).update(b, masks[a])
}

/// The selection after two masks changed places.
pub open spec fn selection_after_swap(selected: Option<usize>, a: int, b: int) -> Option<usize> {
    match selected {
        Some(s) => if s == a {
            Some(b as usize)
        } else if s == b {
            Some(a as usize)
        } else {
            selected
        },
        None => None,
    }
}

/// Moves a mask so many places up (below zero) or down the list, which is the
/// order the masks blend in, and keeps the selection on the same mask.
/// Returns whether it moved.
pub fn move_mask(masks: &mut Vec<Mask>, selected: &mut Option<usize>, index: usize, by: isize) -> (r:
    bool)
    ensures
        r == (index < old(masks)@.len() && 0 <= index + by < old(masks)@.len() && by != 0),
        !r ==> final(masks)@ == old(masks)@ && *final(selected) == *old(selected),
        r ==> {
            &&& final(masks)@ == swapped(old(masks)@, index as int, index + by)
            &&& *final(selected) == selection_after_swap(
                *old(selected),
                index as int,
                index + by,
            )
        },
{
    let count: usize = masks.len();
    let to: usize = match index.checked_add_signed(by) {
        Some(to) => to,
        None => {
            return false;
        },
    };
    if to >= count || index >= count || to == index {
        return false;
    }
    exchange(masks, index, to);
    *selected = match *selected {
        Some(s) => {
            if s == index {
                Some(to)
            } else if s == to {
                Some(index)
            } else {
                Some(s)
            }
        },
        None => None,
    };
    true
}

fn exchange(masks: &mut Vec<Mask>, a: usize, b: usize)
    requires
        a < old(masks)@.len(),
        b < old(masks)@.len(),
        a != b,
    ensures
        final(masks)@ == swapped(old(masks)@, a as int, b as int),
{
    let (low, high): (usize, usize) = if a < b {
        (a, b)
    } else {
        (b, a)
    };
    let later: Mask = masks.remove(high);
    let earlier: Mask = masks.remove(low);
    masks.insert(low, later);
    masks.insert(high, earlier);
    assert(masks@ =~= swapped(old(masks)@, a as int, b as int));
}

/// Removing a mask keeps the selection on the same mask.
pub proof fn a_removal_keeps_the_selection_on_its_mask(
    masks: Seq<Mask>,
    selected: usize,
    index: int,
)
    requires
        0 <= index < masks.len(),
        selected < masks.len(),
        selected != index,
    ensures
        selection_after_removal(Some(selected), index) matches Some(now) && now < masks.remove(
            index,
        ).len() && masks.remove(index)[now as int] == masks[selected as int],
{
}

/// Moving a mask keeps the selection on the same mask.
pub proof fn a_move_keeps_the_selection_on_its_mask(
    masks: Seq<Mask>,
    selected: usize,
    a: int,
    b: int,
)
    requires
        0 <= a < masks.len() <= usize::MAX,
        0 <= b < masks.len(),
        a != b,
        selected < masks.len(),
    ensures
        selection_after_swap(Some(selected), a, b) matches Some(now) && swapped(masks, a, b)[now as int]
            == masks[selected as int],
{
}

/// Moving a mask and moving it back leaves the list as it was.
pub proof fn a_move_is_undone_by_the_move_back(masks: Seq<Mask>, a: int, b: int)
    requires
        0 <= a < masks.len(),
        0 <= b < masks.len(),
    ensures
        swapped(swapped(masks, a, b), b, a) == masks,
{
    assert(swapped(swapped(masks, a, b), b, a) =~= masks);
}

/// Whether another mask than the one at `index` has a name; case does not
/// tell ASCII names apart.
pub open spec fn taken_by_another(masks: Seq<Mask>, index: int, name: Seq<char>) -> bool {
    exists|i: int|
        0 <= i < masks.len() && i != index && ascii_lowercase(#[trigger] masks[i].name@)
            == ascii_lowercase(name)
}

/// The name a rename leaves.
pub open spec fn renamed_spec(masks: Seq<Mask>, index: int, wanted: Seq<char>) -> Seq<char> {
    if trimmed(wanted).len() == 0 || taken_by_another(masks, index, trimmed(wanted)) {
        masks[index].name@
    } else {
        trimmed(wanted)
    }
}

/// The name a rename leaves: trimmed, and the old one when the new one is
/// empty or another mask has it.
pub fn renamed(masks: &Vec<Mask>, index: usize, wanted: &str) -> (r: String)
    requires
        index < masks@.len(),
    ensures
        r@ == renamed_spec(masks@, index as int, wanted@),
{
    let wanted: String = trim(wanted);
    let name: Vec<char> = chars(wanted.as_str());
    let mut taken: bool = false;
    let mut i: usize = 0;
    while i < masks.len()
        invariant
            0 <= i <= masks@.len(),
            name@ == wanted@,
            taken == taken_by_another(masks@.take(i as int), index as int, wanted@),
        decreases masks.len() - i,
    {
        let held: Vec<char> = chars(masks[i].name.as_str());
        let here: bool = i != index && same_ignoring_ascii_case(&held, &name);
        proof {
            let (before, now) = (masks@.take(i as int), masks@.take(i + 1));
            if taken {
                let k = choose|k: int|
                    0 <= k < before.len() && k != index && ascii_lowercase(
                        #[trigger] before[k].name@,
                    ) == ascii_lowercase(wanted@);
                assert(now[k].name@ == before[k].name@);
            }
            if here {
                assert(ascii_lowercase(now[i as int].name@) == ascii_lowercase(wanted@));
            }
            if taken_by_another(now, index as int, wanted@) {
                let k = choose|k: int|
                    0 <= k < now.len() && k != index && ascii_lowercase(#[trigger] now[k].name@)
                        == ascii_lowercase(wanted@);
                if k < i {
                    assert(before[k].name@ == now[k].name@);
                }
            }
        }
        taken = taken || here;
        i += 1;
    }
    assert(masks@.take(i as int) =~= masks@);
    if wanted.as_str().is_empty() || taken {
        masks[index].name.clone()
    } else {
        wanted
    }
}

/// A rename keeps the names of the masks apart.
pub proof fn a_rename_takes_no_name_of_another(masks: Seq<Mask>, index: int, wanted: Seq<char>)
    requires
        0 <= index < masks.len(),
        !taken_by_another(masks, index, masks[index].name@),
    ensures
        !taken_by_another(masks, index, renamed_spec(masks, index, wanted)),
{
}

/// What the widgets of a row of the list said this frame.
#[derive(Clone, Copy, Debug, PartialEq, Eq, Structural)]
pub struct RowInput {
    /// The checkbox went to this value.
    pub enabled: Option<bool>,
    /// The name was clicked.
    pub clicked: bool,
    pub up: bool,
    pub down: bool,
    pub rename: bool,
    pub delete: bool,
}

impl Default for RowInput {
    fn default() -> (r: Self)
        ensures
            r == (RowInput {
                enabled: None,
                clicked: false,
                up: false,
                down: false,
                rename: false,
                delete: false,
            }),
    {
        RowInput {
            enabled: None,
            clicked: false,
            up: false,
            down: false,
            rename: false,
            delete: false,
        }
    }
}

/// What the rows drawn so far asked for: a mask is moved or removed only once
/// every row is drawn.
#[derive(Clone, Copy, Debug, PartialEq, Eq)]
pub struct ListState {
    pub outcome: Outcome,
    pub moved: Option<(usize, isize)>,
    pub removed: Option<usize>,
}

impl Default for ListState {
    fn default() -> (r: Self)
        ensures
            r == (ListState { outcome: nothing(), moved: None, removed: None }),
    {
        ListState { outcome: Outcome::default(), moved: None, removed: None }
    }
}

impl ListState {
    /// The list after one more row.
    pub open spec fn after_row(self, index: usize, count: int, input: RowInput) -> ListState {
        ListState {
            outcome: Outcome {
                edited: self.outcome.edited || input.enabled is Some,
                view_changed: self.outcome.view_changed || input.clicked,
                ..self.outcome
            },
            moved: if input.down && index + 1 < count {
                Some((index, 1))
            } else if input.up && index > 0 {
                Some((index, (-1) as isize))
            } else {
                self.moved
            },
            removed: if input.delete {
                Some(index)
            } else {
                self.removed
            },
        }
    }
}

/// The mask that is selected after the name of one was clicked.
pub open spec fn selection_after_click(selected: Option<usize>, index: usize) -> Option<usize> {
    if selected == Some(index) {
        None
    } else {
        Some(index)
    }
}

/// One row of the list: the checkbox, the name, Up, Down, Rename and Delete.
pub fn mask_row(
    masks: &mut Vec<Mask>,
    adjust: &mut AdjustState,
    list: &mut ListState,
    index: usize,
    input: RowInput,
)
    requires
        index < old(masks)@.len(),
    ensures
        final(masks)@ == match input.enabled {
            Some(enabled) => old(masks)@.update(
                index as int,
                (Mask { enabled, ..old(masks)@[index as int] }),
            ),
            None => old(masks)@,
        },
        *final(list) == old(list).after_row(index, old(masks)@.len() as int, input),
        final(adjust).selected_mask == if input.clicked {
            selection_after_click(old(adjust).selected_mask, index)
        } else {
            old(adjust).selected_mask
        },
        ({
            let chosen = if input.clicked {
                old(adjust).selecting(
                    if old(adjust).selected_mask == Some(index) {
                        None
                    } else {
                        Some(index)
                    },
                )
            } else {
                *old(adjust)
            };
            if input.rename {
                &&& final(adjust).mask_renaming matches Some((at, text)) && at == index && text@
                    == old(masks)@[index as int].name@
                &&& *final(adjust) == (AdjustState {
                    mask_renaming: final(adjust).mask_renaming,
                    ..chosen
                })
            } else {
                *final(adjust) == chosen
            }
        }),
{
    let count: usize = masks.len();
    if let Some(enabled) = input.enabled {
        masks[index].enabled = enabled;
        list.outcome.edited = true;
        assert(masks@ =~= old(masks)@.update(
            index as int,
            Mask { enabled, ..old(masks)@[index as int] },
        ));
    }
    if input.clicked {
        let selected: bool = match adjust.selected_mask {
            Some(mask) => mask == index,
            None => false,
        };
        adjust.select_mask(
            if selected {
                None
            } else {
                Some(index)
            },
        );
        list.outcome.view_changed = true;
    }
    if input.up && index > 0 {
        list.moved = Some((index, -1));
    }
    if input.down && index + 1 < count {
        list.moved = Some((index, 1));
    }
    if input.rename {
        adjust.mask_renaming = Some((index, masks[index].name.clone()));
    }
    if input.delete {
        list.removed = Some(index);
    }
}

/// The name field under the row whose name is being typed. `typed` is what
/// it holds now.
pub fn rename_row(
    masks: &mut Vec<Mask>,
    adjust: &mut AdjustState,
    list: &mut ListState,
    index: usize,
    typed: String,
    done: bool,
    cancelled: bool,
)
    requires
        index < old(masks)@.len(),
    ensures
        ({
            let typing = old(adjust).mask_renaming matches Some((at, _)) && at == index;
            let name = renamed_spec(old(masks)@, index as int, typed@);
            let changes = typing && done && name != old(masks)@[index as int].name@;
            &&& final(masks)@.len() == old(masks)@.len()
            &&& !changes ==> final(masks)@ == old(masks)@ && *final(list) == *old(list)
            &&& changes ==> {
                &&& final(masks)@[index as int].name@ == name
                &&& final(masks)@ == old(masks)@.update(
                    index as int,
                    (Mask { name: final(masks)@[index as int].name, ..old(masks)@[index as int] }),
                )
                &&& *final(list) == (ListState {
                    outcome: (Outcome { edited: true, ..old(list).outcome }),
                    ..*old(list)
                })
            }
            &&& *final(adjust) == if !typing {
                *old(adjust)
            } else if done || cancelled {
                AdjustState { mask_renaming: None, ..*old(adjust) }
            } else {
                AdjustState { mask_renaming: Some((index, typed)), ..*old(adjust) }
            }
        }),
{
    let typing: bool = match &adjust.mask_renaming {
        Some((at, _)) => *at == index,
        None => false,
    };
    if !typing {
        return;
    }
    if done {
        let name: String = renamed(masks, index, typed.as_str());
        if masks[index].name != name {
            masks[index].name = name;
            list.outcome.edited = true;
            assert(masks@ =~= old(masks)@.update(
                index as int,
                Mask { name: masks@[index as int].name, ..old(masks)@[index as int] },
            ));
        }
    }
    if done || cancelled {
        adjust.mask_renaming = None;
    } else {
        adjust.mask_renaming = Some((index, typed));
    }
}

impl ListState {
    /// Whether the move the rows asked for stays inside a list of so many.
    pub open spec fn moves(self, count: int) -> bool {
        self.moved matches Some((index, by)) && index < count && 0 <= index + by < count && by != 0
    }

    /// The masks after the move and the removal the rows asked for.
    pub open spec fn ended(self, masks: Seq<Mask>) -> Seq<Mask> {
        let moved = if self.moves(masks.len() as int) {
            swapped(masks, (self.moved->0).0 as int, (self.moved->0).0 + (self.moved->0).1)
        } else {
            masks
        };
        match self.removed {
            Some(index) => if index < moved.len() {
                moved.remove(index as int)
            } else {
                moved
            },
            None => moved,
        }
    }
}

/// The end of the list: the move and the removal the rows asked for.
pub fn end_list(masks: &mut Vec<Mask>, adjust: &mut AdjustState, list: ListState) -> (r: Outcome)
    ensures
        final(masks)@ == list.ended(old(masks)@),
        r.edited <==> list.outcome.edited || list.removed is Some || list.moves(
            old(masks)@.len() as int,
        ),
        ({
            let moves = list.moved matches Some((index, by)) && index < old(masks)@.len() && 0
                <= index + by < old(masks)@.len() && by != 0;
            let (at, by) = list.moved->0;
            let moved = if moves {
                swapped(old(masks)@, at as int, at + by)
            } else {
                old(masks)@
            };
            let chosen = if moves {
                AdjustState {
                    selected_mask: selection_after_swap(
                        old(adjust).selected_mask,
                        at as int,
                        at + by,
                    ),
                    mask_renaming: None,
                    ..*old(adjust)
                }
            } else {
                *old(adjust)
            };
            match list.removed {
                Some(index) => {
                    let removes = index < moved.len();
                    let after = AdjustState {
                        selected_mask: if removes {
                            selection_after_removal(chosen.selected_mask, index as int)
                        } else {
                            chosen.selected_mask
                        },
                        ..chosen
                    };
                    &&& final(masks)@ == if removes {
                        moved.remove(index as int)
                    } else {
                        moved
                    }
                    &&& *final(adjust) == (AdjustState {
                        mask_renaming: None,
                        ..if chosen.selected_mask == Some(index) {
                            after.selecting(None)
                        } else {
                            after
                        }
                    })
                    &&& r == (Outcome { edited: true, ..list.outcome })
                },
                None => {
                    &&& final(masks)@ == moved
                    &&& *final(adjust) == chosen
                    &&& r == (Outcome { edited: list.outcome.edited || moves, ..list.outcome })
                },
            }
        }),
{
    let mut outcome: Outcome = list.outcome;
    if let Some((index, by)) = list.moved {
        if move_mask(masks, &mut adjust.selected_mask, index, by) {
            adjust.mask_renaming = None;
            outcome.edited = true;
        }
    }
    if let Some(index) = list.removed {
        let was_selected: bool = match adjust.selected_mask {
            Some(mask) => mask == index,
            None => false,
        };
        remove_mask(masks, &mut adjust.selected_mask, index);
        if was_selected {
            adjust.select_mask(None);
        }
        adjust.mask_renaming = None;
        outcome.edited = true;
    }
    outcome
}

/// A New button: a mask of the source, selected.
pub fn new_mask(
    masks: &mut Vec<Mask>,
    adjust: &mut AdjustState,
    word: &str,
    source: MaskSource,
) -> (r: Outcome)
    ensures
        old(masks)@.len() >= MAX_MASKS ==> final(masks)@ == old(masks)@ && *final(adjust) == *old(
            adjust,
        ) && r == nothing(),
        old(masks)@.len() < MAX_MASKS ==> {
            &&& final(masks)@.len() == old(masks)@.len() + 1
            &&& final(masks)@.drop_last() == old(masks)@
            &&& fresh(final(masks)@.last(), final(masks)@.last().name@, source)
            &&& exists|number: nat| #[trigger]
                first_free(old(masks)@, word@, final(masks)@.last().name@, number)
            &&& *final(adjust) == old(adjust).selecting(Some(old(masks)@.len() as usize))
            &&& r == (Outcome { edited: true, ..nothing() })
        },
{
    let mut outcome: Outcome = Outcome::default();
    if let Some(index) = add_mask(masks, word, source) {
        adjust.select_mask(Some(index));
        outcome.edited = true;
    }
    outcome
}

/// A setting after its widget went to a value, or did not.
pub open spec fn gone_to<T>(now: Option<T>, before: T) -> T {
    match now {
        Some(value) => value,
        None => before,
    }
}

/// A widget that went to a value leaves its setting there, and one that was
/// not touched leaves it as it was.
pub proof fn a_widget_leaves_its_setting_where_it_went<T>(value: T, before: T)
    ensures
        gone_to(Some(value), before) == value,
        gone_to(None, before) == before,
{
}

/// The opacity, the invert and the overlay of the selected mask, each at the
/// value its widget went to.
pub fn mask_settings(
    mask: &mut Mask,
    adjust: &mut AdjustState,
    opacity: Option<Single>,
    invert: Option<bool>,
    overlay: Option<bool>,
) -> (r: Outcome)
    ensures
        final(mask).opacity == gone_to(opacity, old(mask).opacity),
        final(mask).invert == gone_to(invert, old(mask).invert),
        final(adjust).mask_overlay == gone_to(overlay, old(adjust).mask_overlay),
        *final(mask) == (Mask {
            opacity: match opacity {
                Some(value) => value,
                None => old(mask).opacity,
            },
            invert: match invert {
                Some(value) => value,
                None => old(mask).invert,
            },
            ..*old(mask)
        }),
        *final(adjust) == (AdjustState {
            mask_overlay: match overlay {
                Some(value) => value,
                None => old(adjust).mask_overlay,
            },
            ..*old(adjust)
        }),
        r == (Outcome {
            edited: opacity is Some || invert is Some,
            view_changed: overlay is Some,
            brush: None,
        }),
{
    let mut outcome: Outcome = Outcome::default();
    if let Some(value) = opacity {
        mask.opacity = value;
        outcome.edited = true;
    }
    if let Some(value) = invert {
        mask.invert = value;
        outcome.edited = true;
    }
    if let Some(value) = overlay {
        adjust.mask_overlay = value;
        outcome.view_changed = true;
    }
    outcome
}

/// What the widgets of a component said this frame.
#[derive(Debug)]
pub struct ComponentInput {
    /// The operator whose button was clicked.
    pub op: Option<MaskOp>,
    /// The invert checkbox went to this value.
    pub invert: Option<bool>,
    /// The numbers of the source, when one changed.
    pub source: Option<MaskSource>,
    /// What the buttons of a brush asked for.
    pub brush: Option<BrushRequest>,
    /// The Pick button.
    pub pick: bool,
}

/// The source the fields of a component leave: the ends of a luminance range
/// are in order.
pub open spec fn settled_source(source: MaskSource) -> MaskSource {
    match source {
        MaskSource::Luminance(range) => MaskSource::Luminance(range.ordered_spec()),
        other => other,
    }
}

/// The numeric fields of one source: two ends of a range that passed each
/// other change places.
pub fn source_fields(source: MaskSource) -> (r: MaskSource)
    ensures
        r == settled_source(source),
{
    match source {
        MaskSource::Luminance(range) => MaskSource::Luminance(range.ordered()),
        other => other,
    }
}

/// Whether an operator's button does something: the first component joins an
/// empty alpha, and adding is the only operator that gives it anything.
pub open spec fn takes_op(component: Component, index: int, op: MaskOp) -> bool {
    (index > 0 || op == MaskOp::Add) && component.op != op
}

/// A component after what its widgets said.
pub open spec fn component_after(before: Component, index: int, input: ComponentInput) -> Component {
    Component {
        op: match input.op {
            Some(op) => if takes_op(before, index, op) {
                op
            } else {
                before.op
            },
            None => before.op,
        },
        invert: match input.invert {
            Some(value) => value,
            None => before.invert,
        },
        source: settled_source(
            match input.source {
                Some(source) => source,
                None => before.source,
            },
        ),
    }
}

/// What is picked for after the Pick button of a component.
pub open spec fn picking_after(picking: Option<usize>, index: usize, picks: bool) -> Option<usize> {
    if !picks {
        picking
    } else if picking == Some(index) {
        None
    } else {
        Some(index)
    }
}

/// One component of the selected mask. `can_pick` is false when no photo is
/// open to pick a range from. The ends of a luminance range are put in order
/// whenever the fields are drawn, which alone is no edit.
pub fn component_input(
    mask: &mut Mask,
    adjust: &mut AdjustState,
    index: usize,
    input: ComponentInput,
    can_pick: bool,
) -> (r: Outcome)
    requires
        index < old(mask).components@.len(),
    ensures
        final(mask).components@ == old(mask).components@.update(
            index as int,
            component_after(old(mask).components@[index as int], index as int, input),
        ),
        final(adjust).picking == picking_after(
            old(adjust).picking,
            index,
            input.pick && can_pick && (final(mask).components@[index as int].source is Luminance
                || final(mask).components@[index as int].source is Colour),
        ),
        ({
            let before = old(mask).components@[index as int];
            let op = match input.op {
                Some(op) => if takes_op(before, index as int, op) {
                    op
                } else {
                    before.op
                },
                None => before.op,
            };
            let now = Component {
                op,
                invert: match input.invert {
                    Some(value) => value,
                    None => before.invert,
                },
                source: settled_source(
                    match input.source {
                        Some(source) => source,
                        None => before.source,
                    },
                ),
            };
            let picks = input.pick && can_pick && (now.source is Luminance || now.source
                is Colour);
            &&& final(mask).components@ == old(mask).components@.update(index as int, now)
            &&& *final(mask) == (Mask { components: final(mask).components, ..*old(mask) })
            &&& *final(adjust) == (AdjustState {
                picking: if !picks {
                    old(adjust).picking
                } else if old(adjust).picking == Some(index) {
                    None
                } else {
                    Some(index)
                },
                ..*old(adjust)
            })
            &&& r == (Outcome {
                edited: op != before.op || input.invert is Some || input.source is Some,
                view_changed: false,
                brush: if now.source is Brush {
                    input.brush
                } else {
                    None
                },
            })
        }),
{
    let mut outcome: Outcome = Outcome::default();
    let mut component: Component = mask.components.remove(index);
    if let Some(op) = input.op {
        if (index > 0 || op == MaskOp::Add) && component.op != op {
            component.op = op;
            outcome.edited = true;
        }
    }
    if let Some(value) = input.invert {
        component.invert = value;
        outcome.edited = true;
    }
    if let Some(source) = input.source {
        component.source = source;
        outcome.edited = true;
    }
    component.source = source_fields(component.source);
    if let MaskSource::Brush(_) = &component.source {
        outcome.brush = input.brush;
    }
    if component.source.reads_the_pixel() && can_pick && input.pick {
        let armed: bool = match adjust.picking {
            Some(picking) => picking == index,
            None => false,
        };
        adjust.picking = if armed {
            None
        } else {
            Some(index)
        };
    }
    let ghost now = component;
    mask.components.insert(index, component);
    assert(mask.components@ =~= old(mask).components@.update(index as int, now));
    outcome
}

/// The components without one of them; the first of those left adds.
pub open spec fn without_component(components: Seq<Component>, index: int) -> Seq<Component> {
    let left = components.remove(index);
    if left.len() > 0 {
        left.update(0, Component { op: MaskOp::Add, ..left[0] })
    } else {
        left
    }
}

/// The Delete button of a component, which is there when it is not the only
/// one. The armed component may be the one that went, or have moved up, so
/// the brush is put down.
pub fn remove_component(mask: &mut Mask, adjust: &mut AdjustState, index: usize) -> (r: Outcome)
    requires
        index < old(mask).components@.len(),
    ensures
        ({
            let removes = old(mask).components@.len() > 1;
            &&& final(mask).components@ == if removes {
                without_component(old(mask).components@, index as int)
            } else {
                old(mask).components@
            }
            &&& *final(mask) == (Mask { components: final(mask).components, ..*old(mask) })
            &&& *final(adjust) == if removes {
                (AdjustState { picking: None, ..*old(adjust) }).brush_down()
            } else {
                *old(adjust)
            }
            &&& r == (Outcome {
                edited: removes,
                view_changed: removes && old(adjust).brush.gives_back(old(adjust).mask_overlay),
                brush: None,
            })
        }),
{
    let mut outcome: Outcome = Outcome::default();
    if mask.components.len() <= 1 {
        return outcome;
    }
    mask.components.remove(index);
    let mut first: Component = mask.components.remove(0);
    first.op = MaskOp::Add;
    mask.components.insert(0, first);
    assert(mask.components@ =~= without_component(old(mask).components@, index as int));
    adjust.picking = None;
    outcome.view_changed = adjust.put_brush_down();
    outcome.edited = true;
    outcome
}

/// An Add component button, which is there while the mask has room.
pub fn add_component(mask: &mut Mask, source: MaskSource) -> (r: Outcome)
    ensures
        ({
            let room = old(mask).components@.len() < MAX_COMPONENTS;
            &&& final(mask).components@ == if room {
                old(mask).components@.push(Component { op: MaskOp::Add, source, invert: false })
            } else {
                old(mask).components@
            }
            &&& *final(mask) == (Mask { components: final(mask).components, ..*old(mask) })
            &&& r == (Outcome { edited: room, ..nothing() })
        }),
{
    let mut outcome: Outcome = Outcome::default();
    if mask.components.len() < MAX_COMPONENTS {
        mask.components.push(Component::new(source));
        outcome.edited = true;
    }
    outcome
}

/// The first component of a mask adds: every change of the components keeps
/// it so.
pub proof fn the_first_component_adds(
    components: Seq<Component>,
    index: int,
    input: Option<MaskOp>,
    source: MaskSource,
)
    requires
        0 <= index < components.len(),
        components[0].op == MaskOp::Add,
    ensures
        without_component(components, index).len() > 0 ==> without_component(
            components,
            index,
        )[0].op == MaskOp::Add,
        components.push(Component { op: MaskOp::Add, source, invert: false })[0].op == MaskOp::Add,
        input matches Some(op) && takes_op(components[index], index, op) ==> components.update(
            index,
            Component { op: input->0, ..components[index] },
        )[0].op == MaskOp::Add,
{
}

/// Two masks that change places stand where the other stood, and every other
/// mask stays.
pub proof fn two_masks_change_places(masks: Seq<Mask>, a: int, b: int, other: int)
    requires
        0 <= a < masks.len(),
        0 <= b < masks.len(),
        0 <= other < masks.len(),
        other != a && other != b,
    ensures
        swapped(masks, a, b).len() == masks.len(),
        swapped(masks, a, b)[a] == masks[b],
        swapped(masks, a, b)[b] == masks[a],
        swapped(masks, a, b)[other] == masks[other],
{
}

/// Removing the selected mask selects nothing, removing another leaves one
/// selected, and where nothing was selected nothing is.
pub proof fn a_removal_selects_no_other_mask(selected: Option<usize>, index: int)
    ensures
        selected matches Some(s) && s == index ==> selection_after_removal(selected, index) is None,
        selected is None ==> selection_after_removal(selected, index) is None,
        selected is Some && selected->0 != index ==> selection_after_removal(selected, index)
            is Some,
        selected is None ==> selection_after_swap(selected, index, index) is None,
{
}

/// A rename takes the name that was typed, without the white space around it,
/// when it names something and no other mask has it; else the name stays.
pub proof fn a_rename_takes_a_free_name(masks: Seq<Mask>, index: int, wanted: Seq<char>)
    requires
        0 <= index < masks.len(),
    ensures
        trimmed(wanted).len() == 0 ==> renamed_spec(masks, index, wanted) == masks[index].name@,
        (exists|i: int|
            0 <= i < masks.len() && i != index && #[trigger] masks[i].name@ == trimmed(wanted))
            ==> renamed_spec(masks, index, wanted) == masks[index].name@,
        trimmed(wanted).len() > 0 && (forall|i: int|
            0 <= i < masks.len() && i != index ==> ascii_lowercase(#[trigger] masks[i].name@)
                != ascii_lowercase(trimmed(wanted))) ==> renamed_spec(masks, index, wanted)
            == trimmed(wanted),
{
    if exists|i: int|
        0 <= i < masks.len() && i != index && #[trigger] masks[i].name@ == trimmed(wanted) {
        let i = choose|i: int|
            0 <= i < masks.len() && i != index && #[trigger] masks[i].name@ == trimmed(wanted);
        assert(ascii_lowercase(masks[i].name@) == ascii_lowercase(trimmed(wanted)));
    }
}

/// Nothing a part of a section did is lost: an edit stays an edit, a change of
/// the view a change, and of two requests the later counts.
pub proof fn nothing_a_part_did_is_lost(whole: Outcome, part: Outcome)
    ensures
        whole.taking(part).edited <==> whole.edited || part.edited,
        whole.taking(part).view_changed <==> whole.view_changed || part.view_changed,
        part.brush is Some ==> whole.taking(part).brush == part.brush,
        part.brush is None ==> whole.taking(part).brush == whole.brush,
        nothing().taking(part) == part,
        whole.taking(nothing()) == whole,
{
}

/// A row asks for what its widgets said and keeps what the rows before asked
/// for: Up moves it up unless it is the first, Down moves it down unless it is
/// the last, Delete removes it, and only the checkbox is an edit of its own.
pub proof fn a_row_asks_for_what_its_widgets_said(
    list: ListState,
    index: usize,
    count: int,
    input: RowInput,
)
    requires
        index < count,
    ensures
        ({
            let now = list.after_row(index, count, input);
            &&& input.delete ==> now.removed == Some(index)
            &&& !input.delete ==> now.removed == list.removed
            &&& input.down && index < count - 1 ==> now.moved == Some((index, 1isize))
            &&& input.up && !input.down && index > 0 ==> now.moved == Some((index, (-1) as isize))
            &&& !input.up && !input.down ==> now.moved == list.moved
            &&& now.outcome.edited <==> list.outcome.edited || input.enabled is Some
            &&& now.outcome.view_changed <==> list.outcome.view_changed || input.clicked
            &&& now.outcome.brush == list.outcome.brush
        }),
        !input.up && input.down && index == count - 1 ==> list.after_row(index, count, input).moved
            == list.moved,
        input.up && index == 0 && !input.down ==> list.after_row(index, count, input).moved
            == list.moved,
{
}

/// Every component but the first takes any operator it has not, and the first
/// takes none but Add.
pub proof fn every_component_but_the_first_takes_an_operator(
    component: Component,
    index: int,
    op: MaskOp,
)
    requires
        0 <= index,
    ensures
        index > 0 ==> (takes_op(component, index, op) <==> component.op != op),
        index == 0 && op != MaskOp::Add ==> !takes_op(component, index, op),
        component.op == op ==> !takes_op(component, index, op),
{
}

/// Without one component the others stay as they are and in their order, but
/// for the operator of the first.
pub proof fn the_other_components_stay(components: Seq<Component>, index: int, i: int)
    requires
        0 <= index < components.len(),
        0 <= i < components.len() - 1,
    ensures
        ({
            let now = without_component(components, index);
            let was = if i < index {
                components[i]
            } else {
                components[i + 1]
            };
            &&& now.len() == components.len() - 1
            &&& now[i].source == was.source
            &&& now[i].invert == was.invert
            &&& i > 0 ==> now[i].op == was.op
            &&& i == 0 ==> now[i].op == MaskOp::Add
        }),
{
}

/// The fields of a source leave it as it is, but for a luminance range whose
/// ends passed each other: they change places.
pub proof fn the_fields_leave_a_source(source: MaskSource)
    ensures
        source !is Luminance ==> settled_source(source) == source,
        source matches MaskSource::Luminance(range) ==> settled_source(source) is Luminance
            && settled_source(source)->Luminance_0.falloff == range.falloff,
        source matches MaskSource::Luminance(range) ==> (range.low.at_most(range.high)
            ==> settled_source(source) == source),
        source matches MaskSource::Luminance(range) ==> (range.high.below(range.low)
            ==> settled_source(source)->Luminance_0.low == range.high && settled_source(
            source,
        )->Luminance_0.high == range.low),
{
}

/// A component takes what its widgets said and keeps the rest: the operator it
/// may take, the invert, and the source, whose ends are in order.
pub proof fn a_component_takes_what_its_widgets_said(
    before: Component,
    index: int,
    input: ComponentInput,
)
    requires
        0 <= index,
    ensures
        ({
            let now = component_after(before, index, input);
            &&& input.invert is Some ==> now.invert == input.invert->0
            &&& input.invert is None ==> now.invert == before.invert
            &&& input.op is None ==> now.op == before.op
            &&& index > 0 && input.op is Some ==> now.op == input.op->0
            &&& index == 0 && input.op is Some && input.op->0 != MaskOp::Add ==> now.op
                == before.op
            &&& index == 0 && input.op == Some(MaskOp::Add) ==> now.op == MaskOp::Add
            &&& input.source is Some && input.source->0 !is Luminance ==> now.source
                == input.source->0
            &&& input.source is None && before.source !is Luminance ==> now.source
                == before.source
            &&& input.source is Some && input.source->0 is Luminance ==> now.source is Luminance
            &&& input.source is None && before.source is Luminance ==> now.source is Luminance
        }),
{
}

/// The Pick button of a range starts picking for it, and a second press ends
/// it; nothing else changes what is picked for.
pub proof fn the_pick_button_starts_and_ends(picking: Option<usize>, index: usize)
    ensures
        picking_after(picking, index, false) == picking,
        picking != Some(index) ==> picking_after(picking, index, true) == Some(index),
        picking_after(Some(index), index, true) is None,
{
}

/// A click on the name of a mask selects it, and on that of the selected one
/// selects none.
pub proof fn a_click_selects_and_deselects(selected: Option<usize>, index: usize)
    ensures
        selected != Some(index) ==> selection_after_click(selected, index) == Some(index),
        selected == Some(index) ==> selection_after_click(selected, index) is None,
{
}

/// An edit holds eight masks, and a mask eight components.
pub proof fn an_edit_holds_eight_masks()
    ensures
        MAX_MASKS == 8,
        MAX_COMPONENTS == 8,
{
}

/// The end of the list does what the rows asked for and nothing else: a mask
/// that was moved up or down stands one place on and the one it passed stands
/// in its place, a mask that was removed is gone, and a list nobody touched
/// stays.
pub proof fn the_end_of_the_list_does_what_the_rows_asked(
    list: ListState,
    masks: Seq<Mask>,
    index: usize,
    other: int,
)
    requires
        index < masks.len(),
        0 <= other < masks.len(),
    ensures
        list.moved is None && list.removed is None ==> list.ended(masks) == masks,
        list.moved is None && list.removed == Some(index) ==> {
            &&& list.ended(masks).len() == masks.len() - 1
            &&& other < index ==> list.ended(masks)[other] == masks[other]
            &&& other > index ==> list.ended(masks)[other - 1] == masks[other]
        },
        list.removed is None && list.moved == Some((index, 1isize)) && index + 1 < masks.len() ==> {
            &&& list.ended(masks).len() == masks.len()
            &&& list.ended(masks)[index + 1] == masks[index as int]
            &&& list.ended(masks)[index as int] == masks[index + 1]
            &&& other != index && other != index + 1 ==> list.ended(masks)[other] == masks[other]
        },
        list.removed is None && list.moved == Some((index, (-1) as isize)) && index > 0 ==> {
            &&& list.ended(masks).len() == masks.len()
            &&& list.ended(masks)[index - 1] == masks[index as int]
            &&& list.ended(masks)[index as int] == masks[index - 1]
            &&& other != index && other != index - 1 ==> list.ended(masks)[other] == masks[other]
        },
        list.removed is None && list.moved == Some((index, 1isize)) && index + 1 == masks.len()
            ==> list.ended(masks) == masks,
{
}

/// A new mask is on, at full opacity, and covers what its one source does; it
/// adjusts nothing yet and its edge is left alone, so the picture stays as it
/// was until something is moved.
pub proof fn a_new_mask_is_on_and_adjusts_nothing(mask: Mask, name: Seq<char>, source: MaskSource)
    requires
        fresh(mask, name, source),
    ensures
        mask.name@ == name,
        mask.enabled && !mask.invert,
        mask.opacity.bits == 0x42c8_0000,
        mask.components@.len() == 1,
        mask.components@[0].op == MaskOp::Add && !mask.components@[0].invert,
        mask.components@[0].source == source,
        mask.adjust.neutral(),
        mask.refine.amount.bits == 0,
        mask.edge.shift.bits == 0 && mask.edge.feather.bits == 0 && mask.edge.contrast.bits == 0,
{
}

/// A new mask takes the word itself when no mask has it, and else the word
/// with the least number that is free.
pub proof fn a_new_mask_takes_the_first_free_name(
    masks: Seq<Mask>,
    base: Seq<char>,
    name: Seq<char>,
    number: nat,
    less: nat,
)
    requires
        first_free(masks, base, name, number),
        1 <= less < number,
    ensures
        !name_taken(masks, name),
        name_taken(masks, numbered(base, less)),
        name == numbered(base, number),
        number >= 2,
{
}

} // verus!
