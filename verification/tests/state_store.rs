//! The persisted state.
use nsticky::niri::Position;
use nsticky::state_store::{
    same_state, state_path, FileStorage, ScratchpadRecord, StoredScratchpad, StoredStaged,
    StoredState, StoredSticky, STATE_VERSION,
};

fn record(id: u64) -> ScratchpadRecord {
    ScratchpadRecord { id, was_sticky: false, outputs: Vec::new(), size: None, position: None }
}

#[test]
fn test_default_path_prefers_the_state_dir_and_falls_back_to_data_dir() {
    assert_eq!(state_path(Some("/state"), Some("/data")), "/state/nsticky/state.json");
    assert_eq!(state_path(None, Some("/data")), "/data/nsticky/state.json");
    assert_eq!(
        state_path(None, None),
        "/tmp/nsticky/state.json",
        "a platform that reports no home still gets a usable path"
    );
}

#[test]
fn test_stored_sticky_keeps_pins_and_shape() {
    assert_eq!(StoredSticky::new(1, Vec::new()), StoredSticky::Id(1));
    assert_eq!(
        StoredSticky::new(2, vec!["DP-1".into()]),
        StoredSticky::Pinned { id: 2, outputs: vec!["DP-1".into()] }
    );
    assert_eq!(
        StoredSticky::new(2, vec!["DP-1".into()]).into_parts(),
        (2, vec!["DP-1".to_string()])
    );
}

#[test]
fn entries_give_back_their_window_whatever_their_shape() {
    assert_eq!(StoredSticky::new(1, Vec::new()).into_parts(), (1, Vec::new()));
    assert_eq!(StoredSticky::Id(4).id(), 4);
    assert_eq!(StoredSticky::Pinned { id: 5, outputs: vec!["DP-1".into()] }.id(), 5);
}

#[test]
fn test_unknown_version_is_rejected() {
    let storage = FileStorage::new("/state/nsticky/state.json".to_string());
    let mut state = StoredState::new(vec![StoredSticky::Id(1)], Vec::new());
    state.version = 99;

    let error = storage.accept(state).unwrap_err();
    assert_eq!(
        error.render(),
        format!(
            "Unsupported state version 99 in \"/state/nsticky/state.json\" (expected {STATE_VERSION})"
        )
    );
}

#[test]
fn a_state_of_this_version_is_taken_as_it_is() {
    let storage = FileStorage::new("state.json".to_string());
    let state = StoredState::new(vec![StoredSticky::Id(1)], Vec::new());
    assert_eq!(storage.accept(state.clone()).unwrap(), state);
}

#[test]
fn test_scratchpad_stored_by_id_alone_round_trips() {
    let stored = StoredScratchpad::Id(42);
    assert_eq!(stored.id(), 42);
    assert_eq!(stored.into_record(), record(42));
}

#[test]
fn test_scratchpad_geometry_round_trips() {
    let position = Position { x: 12.0f64.to_bits(), y: 34.0f64.to_bits() };
    let stored = StoredScratchpad::Full {
        id: 7,
        was_sticky: true,
        outputs: vec!["DP-2".to_string()],
        size: Some((1200, 600)),
        position: Some(position),
    };
    assert_eq!(stored.id(), 7);
    assert_eq!(
        stored.into_record(),
        ScratchpadRecord {
            id: 7,
            was_sticky: true,
            outputs: vec!["DP-2".to_string()],
            size: Some((1200, 600)),
            position: Some(position),
        }
    );
}

#[test]
fn states_are_compared_by_what_they_hold() {
    let staged = |size: Option<(i32, i32)>| StoredStaged {
        id: 3,
        was_sticky: true,
        outputs: vec!["DP-1".to_string()],
        size,
        position: None,
    };
    let state = |size: Option<(i32, i32)>| {
        let mut state = StoredState::new(vec![StoredSticky::Id(1)], vec![staged(size)]);
        state.scratchpads.push(("term".to_string(), StoredScratchpad::Id(9)));
        state
    };
    assert!(same_state(&state(None), &state(None)));
    assert!(!same_state(&state(None), &state(Some((1, 2)))));
    let mut other = state(None);
    other.scratchpads[0].0 = "music".to_string();
    assert!(!same_state(&state(None), &other));
}

#[test]
fn positions_are_compared_as_doubles() {
    let state = |x: f64| {
        let staged = StoredStaged {
            id: 3,
            was_sticky: false,
            outputs: Vec::new(),
            size: None,
            position: Some(Position { x: x.to_bits(), y: 7.5f64.to_bits() }),
        };
        StoredState::new(Vec::new(), vec![staged])
    };

    assert!(same_state(&state(2.5), &state(2.5)));
    assert!(!same_state(&state(2.5), &state(-2.5)));
    assert!(same_state(&state(0.0), &state(-0.0)));
    assert!(same_state(&state(f64::INFINITY), &state(f64::INFINITY)));
    assert!(!same_state(&state(f64::INFINITY), &state(f64::NEG_INFINITY)));
    assert!(!same_state(&state(f64::NAN), &state(f64::NAN)));
    assert!(!same_state(&state(-f64::NAN), &state(-f64::NAN)));
    for (a, b) in [(0.0, -0.0), (1.0, 1.0), (f64::NAN, f64::NAN), (f64::MIN_POSITIVE, 0.0)] {
        assert_eq!(state(a) == state(b), a == b, "{a} {b}");
    }
}

#[test]
fn a_path_is_shown_as_a_path() {
    let storage = FileStorage::new("/home/o'neil/state.json".to_string());
    let mut state = StoredState::new(Vec::new(), Vec::new());
    state.version = 9;

    let error = storage.accept(state).unwrap_err();

    let path = std::path::Path::new("/home/o'neil/state.json");
    assert_eq!(
        error.message(),
        format!("Unsupported state version 9 in {path:?} (expected 1)")
    );
}
