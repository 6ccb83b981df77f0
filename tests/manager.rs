use app_activate::chord::{State, Wake};
use app_activate::config::{Config, ConfigError};
use app_activate::hotkey_manager::{HotKeyError, HotKeyEvent, HotKeyManager};
use global_hotkey::hotkey::{Code, HotKey};

fn config(leader: &str, apps: &[(&str, &str)], secondary: &[(&str, &str)]) -> Config {
    let e = |pairs: &[(&str, &str)]| pairs.iter().map(|(l, p)| (l.to_string(), p.to_string())).collect();
    Config {
        leader_key: leader.to_string(),
        applications: e(apps),
        secondary_applications: e(secondary),
        timeout_ms: 1000,
        db: None,
        path: String::new(),
    }
}

fn id(code: Code) -> u32 {
    HotKey::new(None, code).id()
}

#[test]
fn invalid_config_is_rejected_before_setup() {
    let r = HotKeyManager::from_config(&config("Space", &[("e", "/A/E.app"), ("bad key", "/A/B.app")], &[]));
    assert_eq!(r.err(), Some(HotKeyError::Config(ConfigError::UnknownKey("bad key".to_string()))));
    let r = HotKeyManager::from_config(&config("nope", &[], &[]));
    assert_eq!(r.err(), Some(HotKeyError::Config(ConfigError::UnknownKey("nope".to_string()))));
    let r = HotKeyManager::from_config(&config("Space", &[("e", "/A/E.app")], &[("1", "/A/1.app"), ("Digit1", "/A/2.app")]));
    assert_eq!(r.err(), Some(HotKeyError::Config(ConfigError::DuplicateKey("Digit1".to_string()))));
}

#[test]
fn manager_runs_a_chord_and_reloads() {
    let mut m = match HotKeyManager::from_config(&config("Space", &[("e", "/Applications/Editor.app")], &[])) {
        Ok(m) => m,
        // No hotkey facility on this machine: nothing further to exercise.
        Err(HotKeyError::Facility) | Err(HotKeyError::Register(_)) => return,
        Err(e) => panic!("unexpected error {e:?}"),
    };
    assert!(matches!(m.state(), State::Waiting));
    assert_eq!(m.timeout_ms(), 1000);

    let tick = m.new_events(Some(HotKeyEvent { id: id(Code::Space), pressed: false }), 0);
    assert!(tick.outcome.is_none());
    assert!(matches!(m.state(), State::Waiting));

    let tick = m.new_events(Some(HotKeyEvent { id: id(Code::Space), pressed: true }), 0);
    assert!(tick.outcome.unwrap().launch.is_none());
    assert!(matches!(tick.wake, Wake::Until(1000)));
    match m.state() {
        State::AwaitingSecondKey { registered_keys, .. } => assert_eq!(registered_keys, &vec![id(Code::KeyE)]),
        State::Waiting => panic!("leader should arm"),
    }

    let tick = m.new_events(Some(HotKeyEvent { id: id(Code::KeyE), pressed: true }), 500);
    assert_eq!(tick.outcome.unwrap().launch.as_deref(), Some("/Applications/Editor.app"));
    assert!(tick.expired.is_none());
    assert!(matches!(tick.wake, Wake::Indefinitely));

    m.handle(id(Code::Space), 600);
    let tick = m.new_events(None, 1601);
    assert!(tick.expired.is_some());
    assert!(matches!(m.state(), State::Waiting));

    m.handle(id(Code::Space), 2000);
    let r = m.update_config(&config("KeyL", &[("t", "/Applications/Terminal.app")], &[]));
    if r.is_ok() {
        assert!(matches!(m.state(), State::Waiting));
        assert!(m.handle(id(Code::KeyL), 2100).launch.is_none());
        assert_eq!(m.handle(id(Code::KeyT), 2200).launch.as_deref(), Some("/Applications/Terminal.app"));
    }
    assert_eq!(
        m.update_config(&config("nope", &[], &[])).err(),
        Some(HotKeyError::Config(ConfigError::UnknownKey("nope".to_string())))
    );
}
