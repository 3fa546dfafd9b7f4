use gamut::adjust::AdjustState;
use gamut::mask::{LuminanceRange, Mask, MaskOp, MaskSource, MAX_COMPONENTS, MAX_MASKS};
use gamut::mask_panel::{
    add_component, add_mask, component_input, end_list, mask_row, move_mask, new_sources,
    remove_component, remove_mask, renamed, BrushRequest, ComponentInput, ListState, Outcome,
    RowInput,
};
use gamut::num::Single;

fn named(names: &[&str]) -> Vec<Mask> {
    names
        .iter()
        .map(|name| Mask::new(name, MaskSource::default()))
        .collect()
}

fn names(masks: &[Mask]) -> Vec<&str> {
    masks.iter().map(|m| m.name.as_str()).collect()
}

#[test]
fn a_new_mask_takes_a_free_name_and_the_list_holds_eight() {
    let mut masks = Vec::new();
    let [(word, source), ..] = new_sources();
    assert_eq!(add_mask(&mut masks, word, source.clone()), Some(0));
    assert_eq!(add_mask(&mut masks, word, source.clone()), Some(1));
    assert_eq!(names(&masks), ["Linear", "Linear 2"]);
    assert!(masks[0].enabled && masks[0].components.len() == 1);
    while masks.len() < MAX_MASKS {
        add_mask(&mut masks, "Radial", source.clone()).expect("room");
    }
    assert_eq!(add_mask(&mut masks, "Radial", source), None);
    assert_eq!(masks.len(), MAX_MASKS);
}

#[test]
fn what_a_part_of_the_section_asks_for_reaches_the_whole() {
    let mut whole = Outcome {
        edited: true,
        ..Outcome::default()
    };
    whole.take(Outcome {
        view_changed: true,
        brush: Some(BrushRequest::Paint(2)),
        ..Outcome::default()
    });
    assert_eq!(
        whole,
        Outcome {
            edited: true,
            view_changed: true,
            brush: Some(BrushRequest::Paint(2)),
        }
    );
    // A part that asks for nothing takes nothing away.
    whole.take(Outcome::default());
    assert_eq!(whole.brush, Some(BrushRequest::Paint(2)));
    whole.take(Outcome {
        brush: Some(BrushRequest::Clear(0)),
        ..Outcome::default()
    });
    assert_eq!(whole.brush, Some(BrushRequest::Clear(0)));
}

#[test]
fn there_is_a_new_button_for_each_of_the_five_sources() {
    let sources = new_sources();
    let labels: Vec<&str> = sources.iter().map(|(_, source)| source.label()).collect();
    assert_eq!(
        labels,
        [
            "Linear gradient",
            "Radial gradient",
            "Luminance range",
            "Colour range",
            "Brush"
        ]
    );
}

#[test]
fn removing_a_mask_keeps_the_selection_on_the_same_mask() {
    let mut masks = named(&["A", "B", "C"]);
    let mut selected = Some(2);
    remove_mask(&mut masks, &mut selected, 0);
    assert_eq!((names(&masks), selected), (vec!["B", "C"], Some(1)));
    remove_mask(&mut masks, &mut selected, 1);
    assert_eq!((names(&masks), selected), (vec!["B"], None));
    let mut selected = Some(0);
    remove_mask(&mut masks, &mut selected, 5);
    assert_eq!((masks.len(), selected), (1, Some(0)));
}

#[test]
fn moving_a_mask_reorders_the_blend_and_follows_the_selection() {
    let mut masks = named(&["A", "B", "C"]);
    let mut selected = Some(0);
    assert!(move_mask(&mut masks, &mut selected, 0, 1));
    assert_eq!((names(&masks), selected), (vec!["B", "A", "C"], Some(1)));
    // The mask that was swapped past keeps the selection when it has it.
    let mut selected = Some(2);
    assert!(move_mask(&mut masks, &mut selected, 1, 1));
    assert_eq!((names(&masks), selected), (vec!["B", "C", "A"], Some(1)));
    assert!(!move_mask(&mut masks, &mut selected, 0, -1), "the top");
    assert!(!move_mask(&mut masks, &mut selected, 2, 1), "the bottom");
    assert_eq!(names(&masks), ["B", "C", "A"]);
}

#[test]
fn a_rename_refuses_an_empty_or_a_taken_name() {
    let masks = named(&["Sky", "Face"]);
    assert_eq!(renamed(&masks, 0, "  Clouds "), "Clouds");
    assert_eq!(renamed(&masks, 0, "face"), "Sky");
    assert_eq!(renamed(&masks, 0, "  "), "Sky");
    assert_eq!(
        renamed(&masks, 0, "SKY"),
        "SKY",
        "its own name in another case"
    );
}

#[test]
fn a_row_asks_and_the_end_of_the_list_moves_and_removes() {
    let mut masks = named(&["A", "B", "C"]);
    let mut adjust = AdjustState::default();
    adjust.select_mask(Some(0));
    let mut list = ListState::default();
    mask_row(
        &mut masks,
        &mut adjust,
        &mut list,
        1,
        RowInput {
            enabled: Some(false),
            up: true,
            ..RowInput::default()
        },
    );
    assert!(!masks[1].enabled);
    assert_eq!(names(&masks), ["A", "B", "C"], "not before every row is drawn");
    let outcome = end_list(&mut masks, &mut adjust, list);
    assert!(outcome.edited);
    assert_eq!(names(&masks), ["B", "A", "C"]);
    assert_eq!(adjust.selected_mask, Some(1), "the selection follows");
}

#[test]
fn the_first_component_adds_and_a_full_mask_takes_no_more() {
    let mut mask = Mask::new("A", MaskSource::default());
    let mut adjust = AdjustState::default();
    while mask.components.len() < MAX_COMPONENTS {
        assert!(add_component(&mut mask, MaskSource::default()).edited);
    }
    assert!(!add_component(&mut mask, MaskSource::default()).edited);
    assert_eq!(mask.components.len(), MAX_COMPONENTS);
    mask.components[1].op = MaskOp::Subtract;
    assert!(remove_component(&mut mask, &mut adjust, 0).edited);
    assert_eq!(mask.components[0].op, MaskOp::Add);
}

#[test]
fn a_crossed_range_is_put_in_order_when_drawn_and_that_alone_is_no_edit() {
    let n = |value: f32| Single::from_bits(value.to_bits());
    let range = |low: f32, high: f32| {
        MaskSource::Luminance(LuminanceRange {
            low: n(low),
            high: n(high),
            falloff: n(5.0),
        })
    };
    let untouched = || ComponentInput {
        op: None,
        invert: None,
        source: None,
        brush: None,
        pick: false,
    };
    let mut mask = Mask::new("A", range(80.0, 20.0));
    let mut adjust = AdjustState::default();
    let outcome = component_input(&mut mask, &mut adjust, 0, untouched(), true);
    assert!(!outcome.edited);
    assert_eq!(mask.components[0].source, range(20.0, 80.0));
    let drawn = component_input(&mut mask, &mut adjust, 0, untouched(), true);
    assert!(!drawn.edited);
    assert_eq!(mask.components[0].source, range(20.0, 80.0));
    // A changed end is an edit, and is put in order too.
    let changed = ComponentInput {
        source: Some(range(90.0, 80.0)),
        ..untouched()
    };
    assert!(component_input(&mut mask, &mut adjust, 0, changed, true).edited);
    assert_eq!(mask.components[0].source, range(80.0, 90.0));
}
