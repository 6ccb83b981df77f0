use app_activate::chord::{Binding, ChordMachine, Reaction, State, Wake};

const LEADER: u32 = 100;
const KEY_E: u32 = 4;
const KEY_T: u32 = 19;
const EDITOR: &str = "/Applications/Editor.app";
const TERMINAL: &str = "/Applications/Terminal.app";

fn editor_machine() -> ChordMachine {
    ChordMachine::new(
        LEADER,
        vec![Binding::new(KEY_E, EDITOR.to_string())],
        Vec::new(),
        1000,
    )
}

fn registered(m: &ChordMachine) -> Option<(u64, Vec<u32>, bool)> {
    match &m.state {
        State::Waiting => None,
        State::AwaitingSecondKey { pressed_at, registered_keys, is_secondary } => {
            Some((*pressed_at, registered_keys.clone(), *is_secondary))
        }
    }
}

#[test]
fn basic_chord_launches_bound_application() {
    let mut m = editor_machine();
    match m.handle(LEADER, 0) {
        Reaction::Armed { keys } => assert_eq!(keys, vec![KEY_E]),
        _ => panic!("leader press should arm the machine"),
    }
    assert_eq!(registered(&m), Some((0, vec![KEY_E], false)));
    match m.handle(KEY_E, 400) {
        Reaction::Launch { path, released } => {
            assert_eq!(path, EDITOR);
            assert_eq!(released, vec![KEY_E]);
        }
        _ => panic!("bound key should launch"),
    }
    assert_eq!(registered(&m), None);
}

#[test]
fn chord_times_out_after_window() {
    let mut m = editor_machine();
    m.handle(LEADER, 0);
    assert!(!m.is_timed_out(1000));
    assert_eq!(m.check_timeout(1000), None);
    assert!(m.is_timed_out(1001));
    assert_eq!(m.check_timeout(1001), Some(vec![KEY_E]));
    assert_eq!(registered(&m), None);
}

#[test]
fn timeout_check_is_a_no_op_once_expired() {
    let mut m = editor_machine();
    m.handle(LEADER, 0);
    assert_eq!(m.check_timeout(5000), Some(vec![KEY_E]));
    assert_eq!(m.check_timeout(5000), None);
    assert_eq!(m.check_timeout(9000), None);
    assert!(!m.is_timed_out(9000));
    assert_eq!(registered(&m), None);
}

#[test]
fn unrelated_key_leaves_chord_pending() {
    let mut m = editor_machine();
    m.handle(LEADER, 0);
    assert!(matches!(m.handle(999, 10), Reaction::Ignored));
    assert_eq!(registered(&m), Some((0, vec![KEY_E], false)));
    assert!(matches!(m.wake(), Wake::Until(1000)));
}

#[test]
fn keys_are_ignored_while_waiting() {
    let mut m = editor_machine();
    assert!(matches!(m.handle(KEY_E, 0), Reaction::Ignored));
    assert_eq!(registered(&m), None);
    assert!(matches!(m.wake(), Wake::Indefinitely));
}

#[test]
fn leader_swaps_between_application_sets() {
    let mut m = ChordMachine::new(
        LEADER,
        vec![Binding::new(KEY_E, EDITOR.to_string())],
        vec![Binding::new(KEY_T, TERMINAL.to_string())],
        1000,
    );
    m.handle(LEADER, 0);
    match m.handle(LEADER, 300) {
        Reaction::Swapped { released, keys } => {
            assert_eq!(released, vec![KEY_E]);
            assert_eq!(keys, vec![KEY_T]);
        }
        _ => panic!("second leader press should swap sets"),
    }
    assert_eq!(registered(&m), Some((300, vec![KEY_T], true)));
    assert!(matches!(m.wake(), Wake::Until(1300)));
    assert!(matches!(m.handle(KEY_E, 350), Reaction::Ignored));
    match m.handle(KEY_T, 400) {
        Reaction::Launch { path, released } => {
            assert_eq!(path, TERMINAL);
            assert_eq!(released, vec![KEY_T]);
        }
        _ => panic!("key of the secondary set should launch"),
    }
    assert_eq!(registered(&m), None);
}

#[test]
fn third_leader_press_returns_to_primary_set() {
    let mut m = ChordMachine::new(
        LEADER,
        vec![Binding::new(KEY_E, EDITOR.to_string())],
        vec![Binding::new(KEY_T, TERMINAL.to_string())],
        1000,
    );
    m.handle(LEADER, 0);
    m.handle(LEADER, 10);
    m.handle(LEADER, 20);
    assert_eq!(registered(&m), Some((20, vec![KEY_E], false)));
}

#[test]
fn leader_is_never_registered_as_second_key() {
    let mut m = ChordMachine::new(
        LEADER,
        vec![Binding::new(LEADER, EDITOR.to_string()), Binding::new(KEY_E, EDITOR.to_string())],
        Vec::new(),
        1000,
    );
    m.handle(LEADER, 0);
    assert_eq!(registered(&m), Some((0, vec![KEY_E], false)));
}

#[test]
fn reload_mid_chord_releases_keys_and_waits() {
    let mut m = editor_machine();
    m.handle(LEADER, 0);
    let released = m.reconfigure(200, vec![Binding::new(KEY_T, TERMINAL.to_string())], Vec::new(), 500);
    assert_eq!(released, vec![KEY_E]);
    assert_eq!(registered(&m), None);
    assert_eq!(m.leader, 200);
    assert_eq!(m.timeout_ms, 500);
    assert!(matches!(m.handle(LEADER, 10), Reaction::Ignored));
    assert!(matches!(m.handle(200, 10), Reaction::Armed { .. }));
}

#[test]
fn reconcile_twice_equals_once() {
    let mut m = editor_machine();
    m.handle(LEADER, 0);
    assert_eq!(m.reconfigure(200, Vec::new(), Vec::new(), 500), vec![KEY_E]);
    assert_eq!(m.reconfigure(200, Vec::new(), Vec::new(), 500), Vec::<u32>::new());
    assert_eq!(m.leader, 200);
    assert_eq!(registered(&m), None);
}

#[test]
fn deadline_saturates() {
    let mut m = ChordMachine::new(LEADER, Vec::new(), Vec::new(), u64::MAX);
    m.handle(LEADER, 5);
    assert!(matches!(m.wake(), Wake::Until(u64::MAX)));
    assert!(!m.is_timed_out(u64::MAX));
}

#[test]
fn reset_state_hands_back_registered_keys() {
    let mut m = editor_machine();
    assert_eq!(m.reset_state(), Vec::<u32>::new());
    m.handle(LEADER, 0);
    assert_eq!(m.reset_state(), vec![KEY_E]);
    assert_eq!(registered(&m), None);
}
