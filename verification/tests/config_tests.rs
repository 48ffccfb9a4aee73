use lazyjust::app::types::ListMode;
use lazyjust::cli::init_refusal;
use lazyjust::config::paths::{config_file_path, config_root, join_path, user_themes_dir};
use lazyjust::config::writer::{config_with_theme, WriteError};
use lazyjust::config::{defaults_with, merge, ConfigFile, EngineSection, LoggingSection, PathsSection, UiSection};
use lazyjust::ui::icon_style::IconStyle;

fn defaults() -> lazyjust::config::Config {
    defaults_with(Some("/state".to_string()))
}

#[test]
fn empty_file_yields_defaults() {
    let d = defaults();
    let expected_throttle = d.render_throttle_ms;
    let merged = merge(ConfigFile::empty(), d);
    assert_eq!(merged.render_throttle_ms, expected_throttle);
}

#[test]
fn engine_overrides_apply() {
    let file = ConfigFile {
        engine: Some(EngineSection { render_throttle_ms: Some(8), tick_interval_ms: Some(500) }),
        ui: None,
        paths: None,
        logging: None,
    };
    let merged = merge(file, defaults());
    assert_eq!(merged.render_throttle_ms, 8);
    assert_eq!(merged.tick_interval_ms, 500);
}

#[test]
fn logging_mb_converts_to_bytes() {
    let file = ConfigFile {
        logging: Some(LoggingSection { session_log_size_cap_mb: Some(5), session_log_retention_days: Some(2) }),
        ui: None,
        paths: None,
        engine: None,
    };
    let merged = merge(file, defaults());
    assert_eq!(merged.session_log_size_cap, 5 * 1024 * 1024);
    assert_eq!(merged.session_log_retention_secs, 2 * 24 * 3600);
}

#[test]
fn paths_override_apply() {
    let file = ConfigFile {
        paths: Some(PathsSection { state_dir: Some("/tmp/lj-test".to_string()), sessions_log_dir: None }),
        ui: None,
        logging: None,
        engine: None,
    };
    let merged = merge(file, defaults());
    assert_eq!(merged.state_dir, "/tmp/lj-test");
    assert_ne!(merged.sessions_log_dir, "/tmp/lj-test");
}

#[test]
fn huge_values_saturate() {
    let file = ConfigFile {
        logging: Some(LoggingSection { session_log_size_cap_mb: Some(u64::MAX), session_log_retention_days: Some(u64::MAX) }),
        ui: None,
        paths: None,
        engine: None,
    };
    let merged = merge(file, defaults());
    assert_eq!(merged.session_log_size_cap, u64::MAX);
    assert_eq!(merged.session_log_retention_secs, u64::MAX);
}

#[test]
fn ui_section_sets_theme_icons_and_layout() {
    let file = ConfigFile {
        ui: Some(UiSection { theme: Some("nord".to_string()), icon_style: Some("ASCII".to_string()), list_mode: Some("all".to_string()) }),
        paths: None,
        logging: None,
        engine: None,
    };
    let merged = merge(file, defaults());
    assert_eq!(merged.theme_name, "nord");
    assert_eq!(merged.icon_style, IconStyle::Ascii);
    assert_eq!(merged.list_mode, ListMode::All);
    let odd = ConfigFile {
        ui: Some(UiSection { theme: None, icon_style: Some("fancy".to_string()), list_mode: Some("grid".to_string()) }),
        paths: None,
        logging: None,
        engine: None,
    };
    let kept = merge(odd, defaults());
    assert_eq!(kept.icon_style, IconStyle::Round);
    assert_eq!(kept.list_mode, ListMode::Active);
    assert_eq!(kept.theme_name, "tokyo-night");
}

#[test]
fn defaults_live_under_the_state_dir() {
    let d = defaults();
    assert_eq!(d.state_dir, "/state/lazyjust");
    assert_eq!(d.sessions_log_dir, "/state/lazyjust/sessions");
    assert_eq!(d.session_log_size_cap, 10 * 1024 * 1024);
    assert_eq!(d.tick_interval_ms, 250);
    assert_eq!(defaults_with(None).state_dir, "./lazyjust");
}

#[test]
fn env_override_wins() {
    let root = config_root(Some("/tmp/override"), None, None);
    assert_eq!(config_file_path(&root), "/tmp/override/config.toml");
    assert_eq!(user_themes_dir(&root), "/tmp/override/themes");
}

#[test]
fn falls_back_when_dirs_unavailable() {
    let p = config_file_path(&config_root(None, None, None));
    assert!(p.ends_with("/config.toml"));
    assert!(p.ends_with("lazyjust/config.toml"));
}

#[test]
fn override_dir_wins() {
    let root = config_root(Some("/tmp/x"), Some("/xdg"), Some("/plat"));
    assert_eq!(config_file_path(&root), "/tmp/x/config.toml");
    assert_eq!(user_themes_dir(&root), "/tmp/x/themes");
}

#[test]
fn xdg_config_home_wins_over_platform_default() {
    let root = config_root(None, Some("/xdg"), Some("/plat"));
    assert_eq!(config_file_path(&root), "/xdg/lazyjust/config.toml");
    let plat = config_root(None, Some(""), Some("/plat"));
    assert_eq!(plat, "/plat/lazyjust");
    let none = config_root(None, None, None);
    assert_eq!(none, "./lazyjust");
}

#[test]
fn joins_like_pathbuf() {
    assert_eq!(join_path("/a/", "b"), "/a/b");
    assert_eq!(join_path("/a", "/b"), "/b");
    assert_eq!(join_path("", "b"), "b");
}

#[test]
fn init_refuses_existing_files() {
    assert_eq!(init_refusal("/c.toml"), "config file already exists at /c.toml; refusing to overwrite");
}

#[test]
fn writes_fresh_file_when_missing() {
    let s = match config_with_theme(None, "gruvbox-dark") {
        Ok(t) => t,
        Err(_) => panic!("a fresh document always takes the theme"),
    };
    assert!(s.contains("theme = \"gruvbox-dark\""));
    assert!(s.contains("[ui]"));
}

#[test]
fn preserves_comments_and_other_keys() {
    let original = r#"# top-level comment
[ui]
# keep this comment
theme = "tokyo-night"
split_ratio = 0.30

[engine]
render_throttle_ms = 16
"#;
    let s = match config_with_theme(Some(original), "dracula") {
        Ok(t) => t,
        Err(_) => panic!("valid TOML with a [ui] table takes the theme"),
    };
    assert!(s.contains("# top-level comment"));
    assert!(s.contains("# keep this comment"));
    assert!(s.contains("theme = \"dracula\""));
    assert!(s.contains("split_ratio = 0.3"));
    assert!(s.contains("render_throttle_ms = 16"));
}

#[test]
fn adds_ui_section_if_missing() {
    let s = match config_with_theme(Some("[engine]\nrender_throttle_ms = 8\n"), "nord") {
        Ok(t) => t,
        Err(_) => panic!("valid TOML without [ui] takes the theme"),
    };
    assert!(s.contains("[ui]"));
    assert!(s.contains("theme = \"nord\""));
    assert!(s.contains("render_throttle_ms = 8"));
}

#[test]
fn theme_goes_into_an_inline_ui_table() {
    let s = match config_with_theme(Some("ui = { icon_style = \"ascii\" }\n"), "nord") {
        Ok(t) => t,
        Err(_) => panic!("an inline ui table takes the theme"),
    };
    assert!(s.contains("icon_style = \"ascii\""));
    assert!(s.contains("theme = \"nord\""));
    assert!(!s.contains("[ui]"));
}

#[test]
fn malformed_config_text_is_refused() {
    assert!(matches!(config_with_theme(Some("this is = = not valid toml [["), "nord"), Err(WriteError::Parse(_))));
}

#[test]
fn ui_value_that_is_not_a_table_is_refused() {
    assert!(matches!(config_with_theme(Some("ui = 3\n"), "nord"), Err(WriteError::UiNotATable)));
}
