use app_activate::usage::{render_table, side_by_side, UsageRow};

fn row(application: &str, count: i64) -> UsageRow {
    UsageRow { application: application.to_string(), count }
}

#[test]
fn empty_table_has_heading_and_rule() {
    assert_eq!(render_table(&Vec::new()), vec!["| Application | Count |", "| ----------- | ----: |"]);
}

#[test]
fn table_uses_file_stems_and_right_aligned_counts() {
    let rows = vec![row("/Applications/Editor.app", 12), row("/usr/bin/kitty", 3)];
    assert_eq!(
        render_table(&rows),
        vec![
            "| Application | Count |",
            "| ----------- | ----: |",
            "| Editor      |    12 |",
            "| kitty       |     3 |",
        ]
    );
}

#[test]
fn table_widens_to_longest_name_and_count() {
    let rows = vec![row("/Applications/Visual Studio Code.app", 1234567)];
    assert_eq!(
        render_table(&rows),
        vec![
            "| Application        | Count  |",
            "| ------------------ | ------: |",
            "| Visual Studio Code | 1234567 |",
        ]
    );
}

#[test]
fn path_without_stem_is_shown_whole() {
    let rows = vec![row("/", 1)];
    assert_eq!(render_table(&rows)[2], "| /           |     1 |");
}

#[test]
fn negative_count_keeps_sign() {
    let rows = vec![row("a", -5)];
    assert_eq!(render_table(&rows)[2], "| a           |    -5 |");
}

#[test]
fn side_by_side_stops_at_shortest() {
    let a = vec!["a1".to_string(), "a2".to_string(), "a3".to_string()];
    let b = vec!["b1".to_string(), "b2".to_string()];
    let c = vec!["c1".to_string(), "c2".to_string(), "c3".to_string()];
    assert_eq!(side_by_side(&a, &b, &c), vec!["a1    b1    c1", "a2    b2    c2"]);
    assert!(side_by_side(&a, &Vec::new(), &c).is_empty());
}
