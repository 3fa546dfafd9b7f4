use gamut::history::{History, Observed, MAX_STEPS};

#[test]
fn a_settled_change_is_a_step() {
    let mut history = History::new(0);
    assert_eq!(
        history.observe(&1, true),
        Observed {
            changed: true,
            stepped: true
        }
    );
    assert_eq!((history.undo_steps(), history.redo_steps()), (1, 0));
    assert_eq!(history.present(), &1);
    assert_eq!(history.undo(&1), Some(0));
}

#[test]
fn an_unsettled_run_of_changes_is_one_step_when_it_settles() {
    let mut history = History::new(0);
    for value in 1..=40 {
        let seen = history.observe(&value, false);
        assert!(seen.changed && !seen.stepped);
    }
    assert_eq!(history.undo_steps(), 0, "nothing until it settles");
    // The frame the pointer lets go: the same state, now settled.
    let seen = history.observe(&40, true);
    assert!(!seen.changed && seen.stepped);
    assert_eq!(history.undo_steps(), 1);
    assert_eq!(history.undo(&40), Some(0), "the whole drag in one undo");
    assert_eq!(history.redo(&0), Some(40));
}

#[test]
fn a_change_equal_to_the_present_is_nothing() {
    let mut history = History::new(7);
    assert_eq!(history.observe(&7, true), Observed::default());
    // A drag that ends where it began.
    history.observe(&9, false);
    history.observe(&7, false);
    assert!(!history.observe(&7, true).stepped);
    assert_eq!(history.undo_steps(), 0);
    assert_eq!(history.undo(&7), None);
}

#[test]
fn undo_and_redo_walk_both_ways() {
    let mut history = History::new(0);
    for value in 1..=3 {
        history.observe(&value, true);
    }
    assert_eq!(history.undo(&3), Some(2));
    assert_eq!(history.undo(&2), Some(1));
    assert_eq!((history.undo_steps(), history.redo_steps()), (1, 2));
    assert_eq!(history.redo(&1), Some(2));
    assert_eq!(history.redo(&2), Some(3));
    assert_eq!(history.redo(&3), None);
    assert_eq!(history.undo(&3), Some(2));
    assert_eq!(history.undo(&2), Some(1));
    assert_eq!(history.undo(&1), Some(0));
    assert_eq!(history.undo(&0), None);
    assert_eq!((history.undo_steps(), history.redo_steps()), (0, 3));
}

#[test]
fn a_new_step_clears_redo() {
    let mut history = History::new(0);
    history.observe(&1, true);
    history.observe(&2, true);
    assert_eq!(history.undo(&2), Some(1));
    assert_eq!(history.redo_steps(), 1);
    history.observe(&5, true);
    assert_eq!(history.redo_steps(), 0);
    assert_eq!(history.redo(&5), None);
    assert_eq!(history.undo(&5), Some(1));
}

#[test]
fn the_cap_drops_the_oldest_step() {
    let mut history = History::with_limit(0, 3);
    for value in 1..=5 {
        history.observe(&value, true);
    }
    assert_eq!(history.undo_steps(), 3);
    assert_eq!(history.undo(&5), Some(4));
    assert_eq!(history.undo(&4), Some(3));
    assert_eq!(history.undo(&3), Some(2));
    assert_eq!(history.undo(&2), None, "0 and 1 were dropped");
    // The full history holds 500.
    let mut history = History::new(0);
    for value in 1..=(MAX_STEPS + 20) {
        history.observe(&value, true);
    }
    assert_eq!(history.undo_steps(), MAX_STEPS);
}

#[test]
fn undo_and_redo_on_empty_stacks_are_nothing() {
    let mut history = History::new(3);
    assert_eq!(history.undo(&3), None);
    assert_eq!(history.redo(&3), None);
    assert_eq!(history.present(), &3);
    assert_eq!((history.undo_steps(), history.redo_steps()), (0, 0));
}

#[test]
fn an_undo_before_a_change_settled_keeps_the_change_as_a_step() {
    let mut history = History::new(0);
    history.observe(&1, true);
    // A change is pending when the undo comes.
    history.observe(&2, false);
    assert_eq!(history.undo(&2), Some(1), "back over the pending change");
    assert_eq!(history.redo(&1), Some(2), "which a redo brings back");
    assert_eq!(history.undo(&2), Some(1));
    assert_eq!(history.undo(&1), Some(0));
}

/// A cap of none is a cap of one.
#[test]
fn a_history_keeps_at_least_one_step() {
    let mut history = History::with_limit(0, 0);
    history.observe(&1, true);
    history.observe(&2, true);
    assert_eq!(history.undo_steps(), 1);
    assert_eq!(history.undo(&2), Some(1));
    assert_eq!(history.undo(&1), None);
}

#[test]
fn a_state_is_changed_until_it_is_observed() {
    let mut history = History::new(4);
    assert!(!history.changed(&4));
    assert!(history.changed(&5));
    history.observe(&5, false);
    assert!(!history.changed(&5));
    assert_eq!(history.present(), &4, "a pending change is not the present");
}

#[test]
fn an_undo_and_a_redo_give_the_state_back() {
    let mut history = History::new(String::from("a"));
    let b = String::from("b");
    history.observe(&b, true);
    let back = history.undo(&b).expect("a step");
    assert_eq!(back, "a");
    assert_eq!(history.redo(&back), Some(b));
}

#[test]
fn a_state_taken_back_is_no_step_and_changed_compares_with_the_last_one_shown() {
    let mut history = History::new(0);
    history.observe(&1, true);
    history.observe(&2, true);
    assert_eq!(history.undo(&2), Some(1));
    for settled in [false, true] {
        assert!(!history.observe(&1, settled).stepped);
        assert_eq!((history.undo_steps(), history.redo_steps()), (1, 1));
    }
    assert_eq!(history.redo(&1), Some(2));
    assert_eq!((history.undo_steps(), history.redo_steps()), (2, 0));
    assert_eq!(history.undo(&2), Some(1));
    history.observe(&7, false);
    assert!(!history.changed(&7) && history.changed(&1));
}
