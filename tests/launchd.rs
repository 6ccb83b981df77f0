use app_activate::launchd_manager::LaunchdManager;

fn agent() -> LaunchdManager {
    LaunchdManager::new("app-activate", "501", "/Users/me")
}

#[test]
fn agent_paths_follow_home() {
    let a = agent();
    assert_eq!(a.name, "app-activate");
    assert_eq!(a.id, "501");
    assert_eq!(a.bin, "/Users/me/.cargo/bin/app-activate");
    assert_eq!(a.plist, "/Users/me/Library/LaunchAgents/app-activate.plist");
    let b = LaunchdManager::new("x", "0", "/root/");
    assert_eq!(b.bin, "/root/.cargo/bin/x");
}

#[test]
fn plist_names_label_and_program() {
    let text = agent().plist_contents();
    assert!(text.starts_with("<?xml version=\"1.0\" encoding=\"UTF-8\"?>\n"));
    assert!(text.contains("        <key>Label</key>\n        <string>app-activate</string>\n"));
    assert!(text.contains("            <string>/Users/me/.cargo/bin/app-activate</string>\n"));
    assert!(text.contains("<string>/tmp/app-activate.err.log</string>"));
    assert!(text.ends_with("</plist>\n"));
}

#[test]
fn register_commands_in_order() {
    let words = |v: Vec<Vec<String>>| v.into_iter().map(|c| c.join(" ")).collect::<Vec<_>>();
    assert_eq!(
        words(agent().register_commands()),
        vec![
            "launchctl bootstrap gui/501 /Users/me/Library/LaunchAgents/app-activate.plist",
            "launchctl load -w /Users/me/Library/LaunchAgents/app-activate.plist",
            "launchctl enable gui/501/app-activate",
            "launchctl start app-activate",
        ]
    );
    assert_eq!(
        words(agent().unregister_commands()),
        vec!["launchctl stop app-activate", "launchctl unload -w /Users/me/Library/LaunchAgents/app-activate.plist"]
    );
}
