use krate::tui::{
    InputOutcome, InputState, Key, SelectAction, SelectMode, SelectOpening, SelectResult, SelectState,
    closes_message, select_row, selected_indices,
};

fn open(opening: SelectOpening) -> SelectState {
    match opening {
        SelectOpening::Open(state) => state,
        SelectOpening::Finished(_) => panic!("expected an open selection"),
    }
}

fn finish(state: &mut SelectState, keys: &[Key]) -> Option<SelectResult> {
    for key in keys {
        if let Some(result) = state.step(*key) {
            return Some(result);
        }
    }
    None
}

#[test]
fn empty_lists_go_back_at_once() {
    for opening in [SelectState::one(0), SelectState::many(0, &[true]), SelectState::sticky(0, Some(1))] {
        match opening {
            SelectOpening::Finished(result) => {
                assert!(result.indices.is_empty());
                assert_eq!(result.action, SelectAction::Back);
            }
            SelectOpening::Open(_) => panic!("expected a finished selection"),
        }
    }
}

#[test]
fn cursor_stays_inside_the_list() {
    let mut state = open(SelectState::one(3));
    assert_eq!(state.mode(), SelectMode::One);
    assert!(finish(&mut state, &[Key::Up, Key::Up]).is_none());
    assert_eq!(state.cursor(), 0);
    assert!(finish(&mut state, &[Key::Down, Key::Down, Key::Down, Key::Down]).is_none());
    assert_eq!(state.cursor(), 2);
    let result = finish(&mut state, &[Key::Up, Key::Enter]).unwrap();
    assert_eq!(result.indices, vec![1]);
    assert_eq!(result.action, SelectAction::Confirm);
}

#[test]
fn pick_one_ignores_space_and_search_keys() {
    let mut state = open(SelectState::one(2));
    assert!(finish(&mut state, &[Key::Char(' '), Key::Char('/'), Key::Char('i'), Key::Other]).is_none());
    let result = finish(&mut state, &[Key::Char('q')]).unwrap();
    assert_eq!(result.action, SelectAction::Quit);
    assert!(result.indices.is_empty());
}

#[test]
fn search_list_actions() {
    let marks = [false, true, false, true, true];
    let mut state = open(SelectState::many(4, &marks));
    assert!(state.is_marked(1));
    assert!(state.is_marked(3));
    assert!(!state.is_marked(0));
    let result = finish(&mut state, &[Key::Down, Key::Char(' ')]).unwrap();
    assert_eq!((result.indices, result.action), (vec![1], SelectAction::Confirm));
    let result = finish(&mut state, &[Key::Char('/')]).unwrap();
    assert_eq!((result.indices, result.action), (vec![1, 3], SelectAction::Search));
    let result = finish(&mut state, &[Key::Char('i')]).unwrap();
    assert_eq!((result.indices, result.action), (vec![1, 3], SelectAction::Install));
    let result = finish(&mut state, &[Key::Esc]).unwrap();
    assert_eq!((result.indices, result.action), (vec![1, 3], SelectAction::Back));
    let mut short = open(SelectState::many(3, &[true]));
    assert!(!short.is_marked(2));
    let result = finish(&mut short, &[Key::Enter]).unwrap();
    assert_eq!((result.indices, result.action), (vec![0], SelectAction::Confirm));
}

#[test]
fn provider_list_keeps_one_mark() {
    let mut state = open(SelectState::sticky(2, Some(1)));
    assert_eq!(state.cursor(), 1);
    assert!(state.is_marked(1) && !state.is_marked(0));
    assert!(finish(&mut state, &[Key::Up, Key::Enter]).is_none());
    assert!(state.is_marked(0) && !state.is_marked(1));
    assert!(finish(&mut state, &[Key::Down, Key::Char(' ')]).is_none());
    assert!(state.is_marked(1) && !state.is_marked(0));
    let result = finish(&mut state, &[Key::Esc]).unwrap();
    assert_eq!((result.indices, result.action), (vec![1], SelectAction::Back));

    let mut clamped = open(SelectState::sticky(2, Some(9)));
    assert_eq!(clamped.cursor(), 1);
    let result = finish(&mut clamped, &[Key::Char('q')]).unwrap();
    assert_eq!((result.indices, result.action), (vec![1], SelectAction::Quit));
    let first = open(SelectState::sticky(3, None));
    assert_eq!(first.cursor(), 0);
    assert!(first.is_marked(0));
}

#[test]
fn indices_rows_and_closing() {
    assert_eq!(selected_indices(&[true, false, true]), vec![0, 2]);
    assert_eq!(selected_indices(&[]), Vec::<usize>::new());
    assert_eq!(select_row(true, "Paper"), "[x] Paper");
    assert_eq!(select_row(false, "Paper"), "[ ] Paper");
    assert!(closes_message(Key::Enter));
    assert!(closes_message(Key::Esc));
    assert!(closes_message(Key::Char('q')));
    assert!(!closes_message(Key::Char('x')));
    assert!(!closes_message(Key::Up));
}

#[test]
fn input_line_editing() {
    let mut input = InputState::new("lu");
    assert!(matches!(input.step(Key::Char('c')), InputOutcome::Editing));
    assert!(matches!(input.step(Key::Char('k')), InputOutcome::Editing));
    assert_eq!(input.value, "luck");
    assert!(matches!(input.step(Key::Backspace), InputOutcome::Editing));
    assert_eq!(input.value, "luc");
    assert!(matches!(input.step(Key::Up), InputOutcome::Editing));
    match input.step(Key::Enter) {
        InputOutcome::Submitted(text) => assert_eq!(text, "luc"),
        _ => panic!("expected a submission"),
    }
    let mut padded = InputState::new(" \t essentials\u{3000}\n");
    match padded.step(Key::Enter) {
        InputOutcome::Submitted(text) => assert_eq!(text, "essentials"),
        _ => panic!("expected a submission"),
    }
    let mut blank = InputState::new("  \u{a0}");
    assert!(matches!(blank.step(Key::Enter), InputOutcome::Editing));
    assert!(matches!(blank.step(Key::Esc), InputOutcome::Cancelled));
    let mut empty = InputState::new("");
    assert!(matches!(empty.step(Key::Backspace), InputOutcome::Editing));
    assert_eq!(empty.value, "");
}
