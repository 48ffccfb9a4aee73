use lazyjust::app::state::App;
use lazyjust::app::types::{Focus, Justfile, ListMode, Param, ParamKind, Recipe, SectionId, Status};
use lazyjust::ui::focus::{is_list_active, is_right_active};
use lazyjust::ui::help::{help_lines, help_scroll, pad_to, sections, title_marker, HelpLine};
use lazyjust::ui::icon_style::IconStyle;
use lazyjust::ui::layout::{pane_widths, scroll_thumb};
use lazyjust::ui::list::{dep_line, deps_budget, list_lines, row_glyph, section_header, status_icon, ListLine, Tone};
use lazyjust::ui::path_display::shorten;
use lazyjust::ui::path_relativize::relativize_to_root;
use lazyjust::ui::preview::{displayed_session, preview_lines, text_lines, PreviewLine};
use lazyjust::ui::session_header::{fmt_elapsed, header_fit, pid_text, status_label, HeaderFit};
use lazyjust::ui::status_bar::{hints, message_is_error, HintPart};
use lazyjust::ui::top_bar::{
    active_chrome_width, active_recipe_count, counts_text, load_errors_text, parent_badge, path_budget, recipe_count_text,
    total_recipes,
};

#[test]
fn parses_known_names_case_insensitive() {
    assert_eq!(IconStyle::parse("round"), Some(IconStyle::Round));
    assert_eq!(IconStyle::parse("ASCII"), Some(IconStyle::Ascii));
    assert_eq!(IconStyle::parse("None"), Some(IconStyle::Blank));
}

#[test]
fn unknown_returns_none() {
    assert_eq!(IconStyle::parse("fancy"), None);
}

#[test]
fn glyphs_by_style() {
    let r = IconStyle::Round.glyphs();
    assert_eq!(r.unselected, "○");
    assert_eq!(r.running, "●");
    assert_eq!(r.cursor, "▶");

    let a = IconStyle::Ascii.glyphs();
    assert_eq!(a.unselected, "o");
    assert_eq!(a.running, "*");
    assert_eq!(a.cursor, ">");

    let n = IconStyle::Blank.glyphs();
    assert_eq!(n.unselected, "");
    assert_eq!(n.running, "");
    assert_eq!(n.cursor, "");
}

#[test]
fn every_section_id_has_a_section() {
    let all = [
        SectionId::ListFocus,
        SectionId::SessionFocus,
        SectionId::Filter,
        SectionId::Dropdown,
        SectionId::Param,
        SectionId::Confirm,
        SectionId::Errors,
        SectionId::HelpItself,
    ];
    let secs = sections();
    for id in all {
        assert!(secs.iter().any(|s| s.id == id), "missing section for {id:?}");
    }
}

#[test]
fn build_lines_marks_only_the_origin_section() {
    let secs = sections();
    let (lines, marks) = help_lines(&secs, SectionId::Filter);
    let active_count = lines.iter().filter(|l| matches!(l, HelpLine::Title { active: true, .. })).count();
    assert_eq!(active_count, 1);
    assert_eq!(marks.iter().filter(|m| **m).count(), 1);
}

#[test]
fn help_keys_are_padded_and_scroll_is_clamped() {
    assert_eq!(pad_to("Esc", 6), "Esc   ");
    assert_eq!(pad_to("toolongkey", 4), "toolongkey");
    assert_eq!(help_scroll(100, 30, 12), 20);
    assert_eq!(help_scroll(5, 30, 12), 5);
    assert_eq!(help_scroll(5, 3, 12), 0);
}

#[test]
fn returns_unchanged_when_within_width() {
    assert_eq!(shorten("/tmp/justfile", None, 80), "/tmp/justfile");
}

#[test]
fn home_becomes_tilde() {
    assert_eq!(shorten("/home/u/p/justfile", Some("/home/u"), 80), "~/p/justfile");
    assert_eq!(shorten("/home/u", Some("/home/u"), 80), "~");
    assert_eq!(shorten("/home/user2/x", Some("/home/u"), 80), "/home/user2/x");
}

#[test]
fn under_root_strips_prefix() {
    assert_eq!(relativize_to_root("/root/api/justfile", "/root"), "api/justfile");
}

#[test]
fn equal_to_root_renders_dot_slash() {
    assert_eq!(relativize_to_root("/root", "/root"), "./");
}

#[test]
fn outside_root_returns_absolute() {
    assert_eq!(relativize_to_root("/elsewhere/justfile", "/root"), "/elsewhere/justfile");
}

#[test]
fn root_is_relative_dot() {
    assert_eq!(relativize_to_root("./api/justfile", "."), "api/justfile");
}

#[test]
fn justfile_at_root_renders_filename_only() {
    assert_eq!(relativize_to_root("/root/justfile", "/root"), "justfile");
}

#[test]
fn list_pane_respects_min_left_cols() {
    let (left, _) = pane_widths(120, 1);
    assert!(left >= 28, "list {} < 28", left);
}

#[test]
fn right_pane_respects_min_right_cols() {
    let (_, right) = pane_widths(120, 99);
    assert!(right >= 48, "right {} < 48", right);
}

#[test]
fn pane_split_rounds_the_percentage() {
    assert_eq!(pane_widths(100, 30), (30, 70));
    assert_eq!(pane_widths(40, 30), (0, 40));
}

#[test]
fn scroll_thumb_geometry() {
    assert_eq!(scroll_thumb(10, 20, 0, 5), None);
    assert_eq!(scroll_thumb(100, 10, 50, 10), Some((5, 1)));
    assert_eq!(scroll_thumb(100, 50, 0, 10), Some((0, 5)));
}

#[test]
fn focus_picks_the_active_pane() {
    assert!(is_list_active(Focus::List));
    assert!(!is_list_active(Focus::Session));
    assert!(is_right_active(Focus::Session));
    assert!(!is_right_active(Focus::Preview));
}

#[test]
fn elapsed_uses_the_largest_unit() {
    assert_eq!(fmt_elapsed(59), "59s");
    assert_eq!(fmt_elapsed(60), "1m");
    assert_eq!(fmt_elapsed(3599), "59m");
    assert_eq!(fmt_elapsed(7200), "2h");
}

#[test]
fn header_labels_by_status() {
    assert_eq!(status_label(Status::Running, "3s").1, "running · 3s");
    assert_eq!(status_label(Status::Exited { code: 0 }, "3s").0, "✓");
    assert_eq!(status_label(Status::Exited { code: 2 }, "3s").1, "exit 2 · 3s");
    assert_eq!(status_label(Status::ShellAfterExit { code: 1 }, "3s").1, "shell (exited 1) · press ^D to close");
    assert_eq!(pid_text(Some(42)), "pid 42 · logs ↗");
    assert_eq!(pid_text(None), "logs ↗");
    assert!(matches!(header_fit(10, 5, 20), HeaderFit::Full { gap: 5 }));
    assert!(matches!(header_fit(10, 15, 20), HeaderFit::Truncated { keep: 8 }));
    assert!(matches!(header_fit(19, 5, 20), HeaderFit::Hidden));
}

fn r(n: &str, group: Option<&str>) -> Recipe {
    Recipe {
        name: n.to_string(),
        modules: vec![],
        group: group.map(|g| g.to_string()),
        params: vec![],
        doc: None,
        command_preview: String::new(),
        runs: vec![],
        dependencies: vec![],
    }
}

fn make_app(mode: ListMode) -> App {
    let a = Justfile { path: "/root/api/justfile".to_string(), recipes: vec![r("build", None), r("test", None)], groups: vec![] };
    let b = Justfile { path: "/root/web/justfile".to_string(), recipes: vec![r("dev", None)], groups: vec![] };
    App::new(vec![a, b], vec![], 30, "tokyo-night".to_string(), IconStyle::Round, mode, "/root".to_string())
}

fn plain(app: &App, lines: &[ListLine]) -> Vec<String> {
    lines
        .iter()
        .map(|l| match l {
            ListLine::Header { label } => label.clone(),
            ListLine::Row { jf_idx, recipe_idx, .. } => app.justfiles[*jf_idx].recipes[*recipe_idx].name.clone(),
        })
        .collect()
}

#[test]
fn all_mode_emits_per_justfile_headers_with_relative_path_labels() {
    let app = make_app(ListMode::All);
    let lines = list_lines(&app);
    let text = plain(&app, &lines);
    assert!(text[0].contains("api/justfile"), "expected api/justfile in first header, got {:?}", text[0]);
    assert!(text.iter().any(|s| s.to_lowercase().contains("web/justfile")), "expected a header for web/justfile");
}

#[test]
fn active_mode_renders_recipes_for_active_justfile_only() {
    let app = make_app(ListMode::Active);
    let lines = list_lines(&app);
    let joined = plain(&app, &lines).join("\n");
    assert!(joined.contains("build"), "expected build in {joined}");
    assert!(joined.contains("test"), "expected test in {joined}");
    assert!(!joined.contains("dev"), "should not contain web's dev recipe");
}

#[test]
fn group_headers_and_cursor_row() {
    let a = Justfile { path: "/r/justfile".to_string(), recipes: vec![r("a", None), r("b", Some("ci")), r("c", Some("ci")), r("d", None)], groups: vec![] };
    let mut app = App::new(vec![a], vec![], 30, "tokyo-night".to_string(), IconStyle::Round, ListMode::Active, "/r".to_string());
    app.list_cursor = 9;
    let lines = list_lines(&app);
    assert_eq!(plain(&app, &lines), vec!["a", "CI", "b", "c", "RECIPES", "d"]);
    assert!(matches!(lines[5], ListLine::Row { cursor: true, .. }));
    assert!(matches!(lines[0], ListLine::Row { cursor: false, .. }));
}

#[test]
fn row_pieces() {
    assert_eq!(row_glyph(IconStyle::Blank, true), "▶");
    assert_eq!(row_glyph(IconStyle::Blank, false), " ");
    assert_eq!(row_glyph(IconStyle::Ascii, true), ">");
    assert_eq!(status_icon(Status::Exited { code: 0 }, true, IconStyle::Round), ("✓", Tone::Success));
    assert_eq!(status_icon(Status::Exited { code: 1 }, false, IconStyle::Round), ("✗", Tone::Dim));
    assert_eq!(status_icon(Status::Running, false, IconStyle::Blank), ("", Tone::Running));
    let deps = vec!["build".to_string(), "lint".to_string()];
    assert_eq!(dep_line(&deps, 20), "build · lint");
    assert_eq!(dep_line(&deps, 6), "buil…");
    assert_eq!(section_header("API", 10), (" API ".to_string(), 5));
}

#[test]
fn hint_line_for_the_filter() {
    let mut app = make_app(ListMode::Active);
    app.mode = lazyjust::app::types::Mode::FilterInput;
    app.filter = "bu".to_string();
    let hs = hints(&app);
    assert!(matches!(&hs[1], HintPart::Key(k) if k == "bu_"));
    assert!(message_is_error("error: boom"));
    assert!(message_is_error("Error"));
    assert!(!message_is_error("copied /x"));
}

#[test]
fn all_mode_top_bar_shows_total_counts_and_root() {
    let app = make_app(ListMode::All);
    let s = counts_text(app.justfiles.len() as u64, total_recipes(&app));
    assert!(s.contains("2 justfiles"), "got {s:?}");
    assert!(s.contains("3 recipes"), "got {s:?}");
    assert_eq!(load_errors_text(2), " 2 load errors ");
}

#[test]
fn text_lines_split_like_str_lines() {
    assert_eq!(text_lines(""), Vec::<String>::new());
    assert_eq!(text_lines("a"), vec!["a"]);
    assert_eq!(text_lines("a\nb"), vec!["a", "b"]);
    assert_eq!(text_lines("a\n"), vec!["a"]);
    assert_eq!(text_lines("a\r\nb\r"), vec!["a", "b\r"]);
    assert_eq!(text_lines("\n\nx"), vec!["", "", "x"]);
    for s in ["one\ntwo\r\n\nthree", "\r\n", "tail\n\n"] {
        assert_eq!(text_lines(s), s.lines().collect::<Vec<_>>());
    }
}

fn preview_text(lines: &[PreviewLine]) -> Vec<String> {
    lines
        .iter()
        .map(|l| match l {
            PreviewLine::Title(s) => format!("T:{s}"),
            PreviewLine::Doc(s) => format!("D:{s}"),
            PreviewLine::Plain(s) => s.clone(),
            PreviewLine::Hint(s) => format!("H:{s}"),
        })
        .collect()
}

#[test]
fn preview_shows_doc_params_and_command() {
    let mut rec = r("deploy", None);
    rec.doc = Some("ship it".to_string());
    rec.params = vec![
        Param { name: "env".to_string(), default: Some("prod".to_string()), kind: ParamKind::Positional },
        Param { name: "rest".to_string(), default: None, kind: ParamKind::Variadic },
    ];
    rec.command_preview = "echo {{env}}\n./deploy.sh".to_string();
    assert_eq!(
        preview_text(&preview_lines(&rec)),
        vec![
            "T:recipe: deploy", "D:ship it", "", "params:", "  env=prod", "  rest", "", "command:",
            "  echo {{env}}", "  ./deploy.sh", "", "H:Enter to run",
        ]
    );
    let bare = r("fmt", None);
    assert_eq!(
        preview_text(&preview_lines(&bare)),
        vec!["T:recipe: fmt", "", "command:", "", "H:Enter to run"]
    );
}

#[test]
fn right_pane_shows_focused_session_or_newest_run() {
    let mut app = make_app(ListMode::Active);
    assert_eq!(displayed_session(&app), None);
    app.justfiles[0].recipes[0].runs = vec![3, 7];
    assert_eq!(displayed_session(&app), Some(7));
    app.active_session = Some(3);
    assert_eq!(displayed_session(&app), Some(7));
    app.focus = Focus::Session;
    assert_eq!(displayed_session(&app), Some(3));
}

#[test]
fn long_paths_keep_anchor_and_file_name() {
    let p = "/home/u/projects/very/deep/tree/justfile";
    assert_eq!(shorten(p, None, 20), "/…/justfile");
    assert_eq!(shorten(p, Some("/home/u"), 20), "~/…/justfile");
    assert_eq!(shorten("rel/a/b/c/justfile", None, 14), "rel/…/justfile");
    assert_eq!(shorten(p, None, 6), "…tfile");
    assert_eq!(shorten(p, None, 0), "");
    for w in 0..50 {
        assert!(shorten(p, None, w).chars().count() <= w);
    }
}

#[test]
fn help_text_has_a_blank_between_sections_and_one_marker() {
    let secs = sections();
    let (lines, _) = help_lines(&secs, SectionId::Param);
    let titles = lines.iter().filter(|l| matches!(l, HelpLine::Title { .. })).count();
    let blanks = lines.iter().filter(|l| matches!(l, HelpLine::Blank)).count();
    let entries: usize = secs.iter().map(|s| s.entries.len()).sum();
    assert_eq!(titles, secs.len());
    assert_eq!(blanks, secs.len() - 1);
    assert_eq!(lines.len(), titles + blanks + entries);
    let marked: Vec<&str> = lines
        .iter()
        .filter_map(|l| match l {
            HelpLine::Title { active, title } => Some((title_marker(*active), *title)),
            _ => None,
        })
        .filter(|(m, _)| *m == "▸ ")
        .map(|(_, t)| t)
        .collect();
    assert_eq!(marked, vec!["Param input (modal)"]);
    match &lines[1] {
        HelpLine::Item { keys, .. } => assert_eq!(keys.chars().count(), 20),
        _ => panic!("the first key follows the first title"),
    }
}

#[test]
fn active_top_bar_texts() {
    assert_eq!(recipe_count_text(3), "3 recipes");
    assert_eq!(path_budget(80, 30, 16), 50);
    assert_eq!(path_budget(20, 30, 16), 16);
    assert_eq!(parent_badge("/root/api/justfile"), Some("api".to_string()));
    assert_eq!(parent_badge("justfile"), None);
    assert_eq!(parent_badge("/justfile"), None);
}

#[test]
fn widths_left_for_path_and_dependencies() {
    assert_eq!(active_chrome_width(14, 13, None), 27);
    assert_eq!(active_chrome_width(14, 13, Some(15)), 45);
    assert_eq!(active_chrome_width(usize::MAX, 1, None), usize::MAX);
    assert_eq!(deps_budget(80, 20), 55);
    assert_eq!(deps_budget(24, 20), 0);
    assert_eq!(deps_budget(10, 20), 0);
    let app = make_app(ListMode::Active);
    assert_eq!(active_recipe_count(&app), 2);
}
