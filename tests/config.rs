use app_activate::args::{Args, Command};
use app_activate::config::{bind_all, first_duplicate, key_for, ChangeFilter, Config, ConfigError, CHANGE_WINDOW_MS};
use app_activate::chord::Binding;
use global_hotkey::hotkey::{Code, HotKey};

fn entries(pairs: &[(&str, &str)]) -> Vec<(String, String)> {
    pairs.iter().map(|(l, p)| (l.to_string(), p.to_string())).collect()
}

#[test]
fn key_for_uses_facility_ids() {
    let (_, id) = key_for("e").unwrap();
    assert_eq!(id, HotKey::new(None, Code::KeyE).id());
    let (_, id) = key_for("7").unwrap();
    assert_eq!(id, HotKey::new(None, Code::Digit7).id());
    let (_, id) = key_for("Space").unwrap();
    assert_eq!(id, HotKey::new(None, Code::Space).id());
    let (_, id) = key_for("F12").unwrap();
    assert_eq!(id, HotKey::new(None, Code::F12).id());
}

#[test]
fn key_for_rejects_unknown_names() {
    assert_eq!(key_for("space").unwrap_err(), ConfigError::UnknownKey("space".to_string()));
    assert_eq!(key_for("nope").unwrap_err(), ConfigError::UnknownKey("nope".to_string()));
    assert_eq!(key_for("").unwrap_err(), ConfigError::UnknownKey(String::new()));
}

#[test]
fn bind_all_keeps_order_and_paths() {
    let (hotkeys, bindings) = bind_all(&entries(&[("e", "/A/Editor.app"), ("t", "/A/Terminal.app")])).unwrap();
    assert_eq!(hotkeys, vec![HotKey::new(None, Code::KeyE), HotKey::new(None, Code::KeyT)]);
    assert_eq!(bindings.len(), 2);
    assert_eq!(bindings[0].id, HotKey::new(None, Code::KeyE).id());
    assert_eq!(bindings[0].path, "/A/Editor.app");
    assert_eq!(bindings[1].id, HotKey::new(None, Code::KeyT).id());
    assert_eq!(bindings[1].path, "/A/Terminal.app");
}

#[test]
fn bind_all_of_nothing_is_empty() {
    let (hotkeys, bindings) = bind_all(&Vec::new()).unwrap();
    assert!(hotkeys.is_empty());
    assert!(bindings.is_empty());
}

#[test]
fn bind_all_reports_unknown_label() {
    let r = bind_all(&entries(&[("e", "/A/Editor.app"), ("bogus", "/A/B.app")]));
    assert_eq!(r.unwrap_err(), ConfigError::UnknownKey("bogus".to_string()));
}

#[test]
fn bind_all_reports_labels_naming_one_key() {
    let r = bind_all(&entries(&[("KeyE", "/A/One.app"), ("e", "/A/Two.app")]));
    assert_eq!(r.unwrap_err(), ConfigError::DuplicateKey("e".to_string()));
}

#[test]
fn first_duplicate_finds_repeated_id() {
    let b = |id: u32| Binding::new(id, String::new());
    assert_eq!(first_duplicate(&vec![b(1), b(2), b(3)]), None);
    assert_eq!(first_duplicate(&vec![b(1), b(2), b(1), b(2)]), Some(2));
    assert_eq!(first_duplicate(&Vec::new()), None);
}

#[test]
fn config_applications_derive_both_sets() {
    let config = Config {
        leader_key: "Space".to_string(),
        applications: entries(&[("e", "/A/Editor.app")]),
        secondary_applications: entries(&[("1", "/A/One.app")]),
        timeout_ms: 1000,
        db: None,
        path: String::new(),
    };
    let (_, primary) = config.applications().unwrap();
    assert_eq!(primary[0].id, HotKey::new(None, Code::KeyE).id());
    let (_, secondary) = config.secondary_applications().unwrap();
    assert_eq!(secondary[0].id, HotKey::new(None, Code::Digit1).id());
    assert_eq!(secondary[0].path, "/A/One.app");
}

#[test]
fn change_filter_coalesces_bursts() {
    let mut f = ChangeFilter::new(CHANGE_WINDOW_MS);
    assert!(f.accept(1000));
    assert!(!f.accept(1050));
    assert!(!f.accept(1099));
    assert!(f.accept(1100));
    assert!(!f.accept(1000));
    assert!(f.accept(5000));
}

#[test]
fn missing_subcommand_means_start() {
    let args = Args { config: None, command: None };
    assert_eq!(args.command(), Command::Start);
    let args = Args { config: Some("c.toml".to_string()), command: Some(Command::Register) };
    assert_eq!(args.command(), Command::Register);
}

#[test]
fn both_cases_of_a_letter_name_its_key() {
    let (_, lower) = key_for("e").unwrap();
    let (_, upper) = key_for("E").unwrap();
    assert_eq!(lower, upper);
    assert_eq!(upper, HotKey::new(None, Code::KeyE).id());
    let r = bind_all(&entries(&[("E", "/A/One.app"), ("e", "/A/Two.app")]));
    assert_eq!(r.unwrap_err(), ConfigError::DuplicateKey("e".to_string()));
}

#[test]
fn mixed_labels_give_their_keys_in_order() {
    let (hotkeys, bindings) =
        bind_all(&entries(&[("5", "/A.app"), ("F12", "/B.app"), ("Z", "/C.app")])).unwrap();
    assert_eq!(hotkeys, vec![HotKey::new(None, Code::Digit5), HotKey::new(None, Code::F12), HotKey::new(None, Code::KeyZ)]);
    let ids: Vec<u32> = bindings.iter().map(|b| b.id).collect();
    assert_eq!(ids, vec![id_of(Code::Digit5), id_of(Code::F12), id_of(Code::KeyZ)]);
    let paths: Vec<&str> = bindings.iter().map(|b| b.path.as_str()).collect();
    assert_eq!(paths, vec!["/A.app", "/B.app", "/C.app"]);
}

fn id_of(code: Code) -> u32 {
    HotKey::new(None, code).id()
}
