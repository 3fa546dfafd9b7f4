use gamut::crop::Crop;
use gamut::edit::PhotoEdit;
use gamut::history::History;
use gamut::num::Single;
use gamut::sidecar::Sidecar;
use gamut::timeline::{Clip, Track};
use gamut::undo::{history_key, settled, HistoryKey, HistoryKeys, Settle, Snapshot, KEY_SETTLE};
use std::time::Duration;

fn millis(count: u64) -> u128 {
    Duration::from_millis(count).as_nanos()
}

#[test]
fn a_change_settles_when_the_pointer_the_text_and_the_keys_are_done() {
    assert!(settled(Settle::default(), None));
    let dragging = Settle {
        pointer_busy: true,
        ..Settle::default()
    };
    assert!(!settled(dragging, None));
    let typing = Settle {
        typing: true,
        ..Settle::default()
    };
    assert!(!settled(typing, None));
    // After an arrow key moved a slider the step waits 400 ms.
    assert!(!settled(Settle::default(), Some(millis(0))));
    assert!(!settled(
        Settle::default(),
        Some(millis(399))
    ));
    assert!(settled(Settle::default(), Some(KEY_SETTLE)));
    assert!(!settled(dragging, Some(millis(2000))));
}

#[test]
fn ctrl_z_undoes_and_ctrl_shift_z_and_ctrl_y_redo() {
    let ctrl = HistoryKeys {
        command: true,
        ..HistoryKeys::default()
    };
    assert_eq!(
        history_key(HistoryKeys { z: true, ..ctrl }),
        Some(HistoryKey::Undo)
    );
    assert_eq!(
        history_key(HistoryKeys {
            z: true,
            shift: true,
            ..ctrl
        }),
        Some(HistoryKey::Redo)
    );
    assert_eq!(
        history_key(HistoryKeys { y: true, ..ctrl }),
        Some(HistoryKey::Redo)
    );
    assert_eq!(history_key(ctrl), None);
    // A bare Z or Y is a letter.
    assert_eq!(
        history_key(HistoryKeys {
            z: true,
            ..HistoryKeys::default()
        }),
        None
    );
    assert_eq!(
        history_key(HistoryKeys {
            y: true,
            ..HistoryKeys::default()
        }),
        None
    );
}

#[test]
fn the_history_keys_do_nothing_while_typing_or_under_the_prompt() {
    let undo = HistoryKeys {
        command: true,
        z: true,
        ..HistoryKeys::default()
    };
    assert_eq!(
        history_key(HistoryKeys {
            typing: true,
            ..undo
        }),
        None,
        "the text field's own undo owns the keys"
    );
    assert_eq!(
        history_key(HistoryKeys {
            prompt: true,
            ..undo
        }),
        None
    );
}

fn photo_at(exposure: f32) -> Snapshot {
    let mut sidecar = Sidecar::default();
    sidecar.edit.adjust.exposure = Single::from_bits(exposure.to_bits());
    Snapshot::Photo(Box::new(sidecar))
}

#[test]
fn a_drag_over_the_states_of_a_photo_is_one_undo() {
    let mut history = History::new(photo_at(0.0));
    for step in 1..=10 {
        let seen = history.observe(&photo_at(step as f32 / 10.0), false);
        assert!(seen.changed && !seen.stepped);
    }
    assert!(history.observe(&photo_at(1.0), true).stepped);
    assert_eq!(history.undo_steps(), 1);
    assert_eq!(history.undo(&photo_at(1.0)), Some(photo_at(0.0)));
    assert_eq!(history.redo(&photo_at(0.0)), Some(photo_at(1.0)));
}

#[test]
fn a_minus_zero_is_no_change_of_a_photo() {
    let mut history = History::new(photo_at(0.0));
    assert!(!history.observe(&photo_at(-0.0), true).stepped);
}

#[test]
fn a_photo_and_a_project_are_different_states() {
    let project = |out: i64| Snapshot::Project {
        edit: Box::new(PhotoEdit::default()),
        crop: Crop::default(),
        track: Track::one(Clip { media: 0, source_in: 0, source_out: out }),
    };
    assert_eq!(project(5), project(5).clone());
    assert_ne!(project(5), project(6));
    assert_ne!(project(5), photo_at(0.0));
    assert_eq!(photo_at(0.5), photo_at(0.5).clone());
}
