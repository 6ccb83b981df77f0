use app_activate::keys::normalize;

#[test]
fn lower_case_letter_names_letter_key() {
    assert_eq!(normalize("e"), "KeyE");
    assert_eq!(normalize("z"), "KeyZ");
}

#[test]
fn upper_case_letter_names_letter_key() {
    assert_eq!(normalize("F"), "KeyF");
    assert_eq!(normalize("A"), "KeyA");
}

#[test]
fn digit_names_digit_key() {
    assert_eq!(normalize("5"), "Digit5");
    assert_eq!(normalize("0"), "Digit0");
}

#[test]
fn longer_labels_pass_through() {
    assert_eq!(normalize("F12"), "F12");
    assert_eq!(normalize("Space"), "Space");
    assert_eq!(normalize("space"), "space");
    assert_eq!(normalize("ab"), "ab");
}

#[test]
fn other_single_characters_pass_through() {
    assert_eq!(normalize(";"), ";");
    assert_eq!(normalize("é"), "é");
    assert_eq!(normalize(" "), " ");
}

#[test]
fn every_ascii_letter_and_digit() {
    for c in 'a'..='z' {
        assert_eq!(normalize(&c.to_string()), format!("Key{}", c.to_ascii_uppercase()));
    }
    for c in 'A'..='Z' {
        assert_eq!(normalize(&c.to_string()), format!("Key{}", c));
    }
    for c in '0'..='9' {
        assert_eq!(normalize(&c.to_string()), format!("Digit{}", c));
    }
}
