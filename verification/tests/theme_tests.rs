use lazyjust::theme::color::Color;
use lazyjust::theme::registry::{builtin_theme_names, is_builtin, theme_names, theme_to_load, toml_stem, ThemeSource};
use lazyjust::theme::{parse_color, theme_from_file, ThemeError, ThemeFile, DEFAULT_THEME_NAME};

#[test]
fn default_name_is_registered() {
    assert!(builtin_theme_names().iter().any(|n| *n == DEFAULT_THEME_NAME));
}

#[test]
fn all_names_unique() {
    let names = builtin_theme_names();
    for (i, a) in names.iter().enumerate() {
        for b in names.iter().skip(i + 1) {
            assert_ne!(a, b, "duplicate theme name: {a}");
        }
    }
}

#[test]
fn hex_parses() {
    assert!(matches!(parse_color("#89b4fa"), Ok(Color::Rgb(137, 180, 250))));
}

#[test]
fn named_parses_case_insensitive() {
    assert!(matches!(parse_color("Blue"), Ok(Color::Blue)));
    assert!(matches!(parse_color("bright_red"), Ok(Color::LightRed)));
}

#[test]
fn palette_index_parses() {
    assert!(matches!(parse_color("21"), Ok(Color::Indexed(21))));
}

#[test]
fn empty_string_is_error() {
    assert!(matches!(parse_color(""), Err(ThemeError::Color(_))));
}

#[test]
fn short_hex_is_error() {
    assert!(matches!(parse_color("#abc"), Err(ThemeError::Color(_))));
}

#[test]
fn unknown_name_is_error() {
    assert!(matches!(parse_color("mauve"), Err(ThemeError::Color(_))));
}

#[test]
fn colors_ignore_surrounding_space_and_take_plus_signs() {
    assert!(matches!(parse_color("  +12 "), Ok(Color::Indexed(12))));
    assert!(matches!(parse_color("256"), Err(ThemeError::Color(_))));
    assert!(matches!(parse_color("#+f+f+f"), Ok(Color::Rgb(15, 15, 15))));
    assert!(matches!(parse_color("#GG0000"), Err(ThemeError::Color(_))));
    match parse_color(" nope ") {
        Err(ThemeError::Color(s)) => assert_eq!(s, " nope "),
        _ => panic!("expected a colour error"),
    }
}

fn file(bg: &str, dim: &str, badge_fg: &str) -> ThemeFile {
    ThemeFile {
        name: "test".to_string(),
        bg: bg.to_string(),
        fg: "#ffffff".to_string(),
        dim: dim.to_string(),
        accent: "cyan".to_string(),
        highlight: "#202020".to_string(),
        selected_fg: "white".to_string(),
        success: "green".to_string(),
        warn: "yellow".to_string(),
        error: "red".to_string(),
        running: "blue".to_string(),
        info: "cyan".to_string(),
        badge_bg: "dark_gray".to_string(),
        badge_fg: badge_fg.to_string(),
    }
}

#[test]
fn theme_round_trips() {
    let t = match theme_from_file(&file("#000000", "gray", "white")) {
        Ok(t) => t,
        Err(_) => panic!("theme should read"),
    };
    assert_eq!(t.name, "test");
    assert_eq!(t.bg, Color::Rgb(0, 0, 0));
    assert_eq!(t.dim, Color::Gray);
    assert_eq!(t.accent, Color::Cyan);
}

#[test]
fn first_bad_slot_is_reported() {
    match theme_from_file(&file("#000000", "mauve", "puce")) {
        Err(ThemeError::Color(s)) => assert_eq!(s, "mauve"),
        _ => panic!("expected the dim slot to fail"),
    }
}

#[test]
fn names_are_sorted_and_deduplicated() {
    let names = theme_names(&vec!["ocean".to_string(), "nord".to_string()]);
    assert!(names.iter().any(|n| n == "tokyo-night"));
    assert!(names.iter().any(|n| n == "ocean"));
    let mut expected = names.clone();
    expected.sort();
    expected.dedup();
    assert_eq!(names, expected);
    assert_eq!(names.len(), 12);
}

#[test]
fn theme_files_give_their_stem() {
    assert_eq!(toml_stem("ocean.toml"), Some("ocean".to_string()));
    assert_eq!(toml_stem(".toml"), None);
    assert_eq!(toml_stem("notes.txt"), None);
}

#[test]
fn unknown_theme_loads_the_default() {
    assert!(matches!(theme_to_load("nord", true), ThemeSource::User));
    match theme_to_load("nord", false) {
        ThemeSource::Builtin(n) => assert_eq!(n, "nord"),
        _ => panic!("expected the bundled theme"),
    }
    match theme_to_load("this-does-not-exist", false) {
        ThemeSource::Builtin(n) => assert_eq!(n, "tokyo-night"),
        _ => panic!("expected the default theme"),
    }
    assert!(is_builtin("dracula"));
    assert!(!is_builtin("ocean"));
}
