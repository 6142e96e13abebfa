use sirula::compose::{compose_display, compose_search, split_override_name};

#[test]
fn override_name_without_carriage_return_is_kept() {
    let (display, range) = split_override_name("Firefox");
    assert_eq!(display, "Firefox");
    assert_eq!(range, None);
}

#[test]
fn override_name_splits_at_first_carriage_return() {
    let (display, range) = split_override_name("Web\rBrowser");
    assert_eq!(display, "Web Browser");
    assert_eq!(range, Some((4, 11)));
}

#[test]
fn override_name_replaces_every_carriage_return() {
    let (display, range) = split_override_name("a\rb\rc");
    assert_eq!(display, "a b c");
    assert_eq!(range, Some((2, 5)));
}

#[test]
fn override_ranges_count_codepoints_not_bytes() {
    // 'é' is two bytes but one codepoint; the range is in codepoints.
    let (display, range) = split_override_name("Caf\u{e9}\rBar");
    assert_eq!(display, "Caf\u{e9} Bar");
    assert_eq!(range, Some((5, 8)));
}

#[test]
fn extra_field_is_appended_and_marked() {
    let (display, range) = compose_display("Files", Some("Nautilus"), true);
    assert_eq!(display, "Files Nautilus");
    assert_eq!(range, Some((6, 14)));
}

#[test]
fn contained_extra_field_is_suppressed() {
    let (display, range) = compose_display("Firefox", Some("firefox"), true);
    assert_eq!(display, "Firefox");
    assert_eq!(range, None);
}

#[test]
fn contained_extra_field_is_kept_when_policy_allows() {
    let (display, range) = compose_display("Firefox", Some("firefox"), false);
    assert_eq!(display, "Firefox firefox");
    assert_eq!(range, Some((8, 15)));
}

#[test]
fn missing_extra_field_leaves_the_name() {
    let (display, range) = compose_display("Firefox", None, true);
    assert_eq!(display, "Firefox");
    assert_eq!(range, None);
}

#[test]
fn search_text_without_hidden_fields_is_the_display_text() {
    assert_eq!(compose_search("Files", &vec![]), "Files");
}

#[test]
fn search_text_joins_hidden_fields_with_spaces() {
    let hidden = vec![String::from("org"), String::from("gnome"), String::from("nautilus")];
    assert_eq!(compose_search("Files", &hidden), "Files org gnome nautilus");
}
