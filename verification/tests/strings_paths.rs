use session_selector::paths::{build_session_paths, format_session_path};
use session_selector::settings::{Keybinds, SessionSelectorPaths};
use session_selector::strings::{chars_eq, chars_to_string, decimal_chars, stats_text};

fn chars(s: &str) -> Vec<char> {
    s.chars().collect()
}

#[test]
fn chars_to_string_round_trip() {
    assert_eq!(chars_to_string(&chars("~/proj-a")), "~/proj-a");
    assert_eq!(chars_to_string(&chars("")), "");
    assert_eq!(chars_to_string(&chars("héllo")), "héllo");
}

#[test]
fn chars_eq_compares_contents() {
    assert!(chars_eq(&chars("abc"), &chars("abc")));
    assert!(!chars_eq(&chars("abc"), &chars("abd")));
    assert!(!chars_eq(&chars("abc"), &chars("ab")));
    assert!(chars_eq(&chars(""), &chars("")));
}

#[test]
fn decimal_renders_exact_digits() {
    assert_eq!(chars_to_string(&decimal_chars(0)), "0");
    assert_eq!(chars_to_string(&decimal_chars(7)), "7");
    assert_eq!(chars_to_string(&decimal_chars(10)), "10");
    assert_eq!(chars_to_string(&decimal_chars(90210)), "90210");
}

#[test]
fn stats_text_formats_counter() {
    assert_eq!(stats_text(0, 0), " 0/0 ");
    assert_eq!(stats_text(2, 3), " 2/3 ");
    assert_eq!(stats_text(19, 240), " 19/240 ");
}

fn default_paths() -> SessionSelectorPaths {
    SessionSelectorPaths::default()
}

#[test]
fn default_path_settings() {
    let settings = default_paths();
    assert!(settings.truncate_home_dir);
    assert_eq!(settings.home_dir_symbol, vec!['~']);
    assert!(!settings.trailing_slash);
}

#[test]
fn default_keybinds() {
    let keybinds = Keybinds::default();
    assert_eq!(keybinds.select_session, vec![String::from("C-s")]);
    assert_eq!(keybinds.last_session, vec![String::from("w")]);
}

#[test]
fn format_truncates_home_prefix() {
    let settings = default_paths();
    let home = chars("/home/alice");
    let label = format_session_path(&chars("/home/alice/proj-a"), &home, &settings);
    assert_eq!(chars_to_string(&label), "~/proj-a");
}

#[test]
fn format_of_home_itself() {
    let settings = default_paths();
    let home = chars("/home/alice");
    let label = format_session_path(&chars("/home/alice"), &home, &settings);
    assert_eq!(chars_to_string(&label), "~/");
}

#[test]
fn format_leaves_paths_outside_home() {
    let settings = default_paths();
    let home = chars("/home/alice");
    let label = format_session_path(&chars("/srv/data"), &home, &settings);
    assert_eq!(chars_to_string(&label), "/srv/data");
    // a sibling that only shares the textual prefix is not below home
    let label = format_session_path(&chars("/home/alicia"), &home, &settings);
    assert_eq!(chars_to_string(&label), "/home/alicia");
}

#[test]
fn format_respects_flags() {
    let mut settings = default_paths();
    settings.trailing_slash = true;
    let home = chars("/home/alice");
    let label = format_session_path(&chars("/home/alice/proj-a"), &home, &settings);
    assert_eq!(chars_to_string(&label), "~/proj-a/");

    settings.truncate_home_dir = false;
    let label = format_session_path(&chars("/home/alice/proj-a"), &home, &settings);
    assert_eq!(chars_to_string(&label), "/home/alice/proj-a/");
}

#[test]
fn format_with_empty_home_never_truncates() {
    let settings = default_paths();
    let label = format_session_path(&chars("/srv/data"), &chars(""), &settings);
    assert_eq!(chars_to_string(&label), "/srv/data");
}

#[test]
fn build_session_paths_formats_each() {
    let settings = default_paths();
    let home = chars("/home/alice");
    let raw = vec![chars("/home/alice/proj-a"), chars("/srv/data")];
    let labels = build_session_paths(&raw, &home, &settings);
    assert_eq!(labels.len(), 2);
    assert_eq!(chars_to_string(&labels[0]), "~/proj-a");
    assert_eq!(chars_to_string(&labels[1]), "/srv/data");
}
