use lazyjust::app::action::{Action, Effect};
use lazyjust::app::outcome::{clipboard_copied, exit_after, expire_status, session_output, theme_persisted, Exit};
use lazyjust::app::reducer::{open_theme_picker, reduce};
use lazyjust::app::spawn::{record_spawn, run_highlighted, spawn_target, take_param_values};
use lazyjust::app::state::App;
use lazyjust::app::types::{ConfirmAction, Focus, Justfile, ListMode, Mode, Param, ParamKind, Recipe, SessionMeta, Status};
use lazyjust::session::manager::new_session_meta;
use lazyjust::theme::registry::theme_names;
use lazyjust::theme::DEFAULT_THEME_NAME;
use lazyjust::ui::icon_style::IconStyle;

fn test_app() -> App {
    App::new(vec![], vec![], 30, DEFAULT_THEME_NAME.to_string(), IconStyle::Round, ListMode::Active, ".".to_string())
}

fn open_picker(app: &mut App) {
    assert!(matches!(reduce(app, Action::OpenThemePicker), Effect::ListThemes));
    open_theme_picker(app, theme_names(&vec![]));
}

#[test]
fn open_picker_enters_mode_with_current_theme_highlighted() {
    let mut app = test_app();
    open_picker(&mut app);
    match &app.mode {
        Mode::ThemePicker { original_name, highlighted, names } => {
            assert_eq!(original_name, DEFAULT_THEME_NAME);
            assert_eq!(names[*highlighted], DEFAULT_THEME_NAME);
        },
        _ => panic!("expected ThemePicker mode"),
    }
}

#[test]
fn picker_move_wraps_around() {
    let mut app = test_app();
    open_picker(&mut app);
    let e = reduce(&mut app, Action::PickerMove(-1));
    let last_name = match &app.mode {
        Mode::ThemePicker { names, highlighted, .. } => names[*highlighted].clone(),
        _ => panic!("expected ThemePicker mode"),
    };
    assert_eq!(app.theme_name, last_name);
    assert_ne!(app.theme_name, DEFAULT_THEME_NAME);
    assert!(matches!(e, Effect::ResolveTheme(n) if n == last_name));
}

#[test]
fn picker_cancel_restores_original() {
    let mut app = test_app();
    open_picker(&mut app);
    reduce(&mut app, Action::PickerMove(1));
    assert_ne!(app.theme_name, DEFAULT_THEME_NAME);
    reduce(&mut app, Action::PickerCancel);
    assert_eq!(app.theme_name, DEFAULT_THEME_NAME);
    assert!(matches!(app.mode, Mode::Normal));
}

#[test]
fn picker_confirm_commits_and_returns_to_normal() {
    let mut app = test_app();
    open_picker(&mut app);
    reduce(&mut app, Action::PickerMove(1));
    let chosen = app.theme_name.clone();
    assert_ne!(chosen, DEFAULT_THEME_NAME);
    let e = reduce(&mut app, Action::PickerConfirm);
    assert!(matches!(app.mode, Mode::Normal));
    assert_eq!(app.theme_name, chosen);
    assert!(matches!(e, Effect::PersistTheme(n) if n == chosen));
}

#[test]
fn picker_wraps_by_large_steps() {
    let mut app = test_app();
    open_picker(&mut app);
    let n: isize = 11;
    reduce(&mut app, Action::PickerMove(n * 3 + 2));
    match &app.mode {
        Mode::ThemePicker { names, highlighted, .. } => {
            let start = names.iter().position(|x| x == DEFAULT_THEME_NAME).unwrap_or(0);
            assert_eq!(*highlighted, (start + 2) % names.len());
        },
        _ => panic!("expected ThemePicker mode"),
    }
}

fn recipe(n: &str, params: Vec<Param>) -> Recipe {
    Recipe { name: n.to_string(), modules: vec![], group: None, params, doc: None, command_preview: String::new(), runs: vec![], dependencies: vec![] }
}

fn app_with(recipes: Vec<Recipe>) -> App {
    let jf = Justfile { path: "/p/justfile".to_string(), recipes, groups: vec![] };
    App::new(vec![jf], vec![], 30, DEFAULT_THEME_NAME.to_string(), IconStyle::Round, ListMode::Active, "/p".to_string())
}

fn meta(id: u64) -> SessionMeta {
    new_session_meta(id, "build", "/p/justfile", &[], format!("/logs/{id}.log"), None)
}

#[test]
fn split_ratio_stays_between_bounds() {
    let mut app = test_app();
    for _ in 0..20 {
        reduce(&mut app, Action::GrowLeftPane);
    }
    assert_eq!(app.split_ratio, 70);
    for _ in 0..20 {
        reduce(&mut app, Action::ShrinkLeftPane);
    }
    assert_eq!(app.split_ratio, 15);
    reduce(&mut app, Action::ResetSplit);
    assert_eq!(app.split_ratio, 30);
}

#[test]
fn cursor_stops_at_the_last_recipe() {
    let mut app = app_with(vec![recipe("a", vec![]), recipe("b", vec![])]);
    reduce(&mut app, Action::CursorDown);
    reduce(&mut app, Action::CursorDown);
    assert_eq!(app.list_cursor, 1);
    reduce(&mut app, Action::CursorUp);
    reduce(&mut app, Action::CursorUp);
    assert_eq!(app.list_cursor, 0);
}

#[test]
fn filter_typing_and_cancel() {
    let mut app = test_app();
    reduce(&mut app, Action::FilterChar('x'));
    assert_eq!(app.filter, "");
    reduce(&mut app, Action::EnterFilter);
    reduce(&mut app, Action::FilterChar('a'));
    reduce(&mut app, Action::FilterChar('b'));
    reduce(&mut app, Action::FilterBackspace);
    assert_eq!(app.filter, "a");
    reduce(&mut app, Action::CancelFilter);
    assert_eq!(app.filter, "");
    assert!(matches!(app.mode, Mode::Normal));
}

#[test]
fn spawn_records_the_run_and_focuses_it() {
    let mut app = app_with(vec![recipe("build", vec![])]);
    assert!(run_highlighted(&mut app, false));
    let target = spawn_target(&app).unwrap();
    assert_eq!(target.recipe_name, "build");
    assert_eq!(target.cwd, "/p");
    let id = app.next_session_id();
    record_spawn(&mut app, meta(id));
    assert_eq!(app.active_session, Some(1));
    assert_eq!(app.focus, Focus::Session);
    assert_eq!(app.justfiles[0].recipes[0].runs, vec![1]);
    assert!(!run_highlighted(&mut app, false));
    assert!(run_highlighted(&mut app, true));
}

#[test]
fn recipes_with_parameters_ask_for_them() {
    let p = Param { name: "target".to_string(), default: Some("debug".to_string()), kind: ParamKind::Positional };
    let mut app = app_with(vec![recipe("build", vec![p])]);
    assert!(!run_highlighted(&mut app, false));
    reduce(&mut app, Action::ParamChar('!'));
    let values = take_param_values(&mut app).unwrap();
    assert_eq!(values, vec!["debug!".to_string()]);
    assert!(matches!(app.mode, Mode::Normal));
}

#[test]
fn close_session_forgets_it_everywhere() {
    let mut app = app_with(vec![recipe("build", vec![])]);
    let id = app.next_session_id();
    record_spawn(&mut app, meta(id));
    let id2 = app.next_session_id();
    record_spawn(&mut app, meta(id2));
    reduce(&mut app, Action::CloseSession(id2));
    assert_eq!(app.sessions.len(), 1);
    assert_eq!(app.active_session, None);
    assert_eq!(app.justfiles[0].recipes[0].runs, vec![id]);
}

#[test]
fn kill_asks_then_kills() {
    let mut app = app_with(vec![recipe("build", vec![])]);
    let id = app.next_session_id();
    record_spawn(&mut app, meta(id));
    reduce(&mut app, Action::RequestKillSession);
    match &app.mode {
        Mode::Confirm { prompt, on_accept } => {
            assert_eq!(prompt, "Kill session 1?");
            assert_eq!(*on_accept, ConfirmAction::KillSession(1));
        },
        _ => panic!("expected a confirmation"),
    }
    let e = reduce(&mut app, Action::Confirm(ConfirmAction::KillSession(1)));
    assert!(matches!(e, Effect::KillPty(1)));
    assert_eq!(app.sessions[0].status, Status::Exited { code: 130 });
    assert!(matches!(app.mode, Mode::Normal));
}

#[test]
fn quit_confirms_only_with_live_sessions() {
    let mut app = app_with(vec![recipe("build", vec![])]);
    reduce(&mut app, Action::RequestQuit);
    assert!(matches!(app.mode, Mode::Normal));
    let id = app.next_session_id();
    record_spawn(&mut app, meta(id));
    reduce(&mut app, Action::RequestQuit);
    assert!(matches!(app.mode, Mode::Confirm { on_accept: ConfirmAction::QuitKillAll, .. }));
}

#[test]
fn next_session_jumps_to_unread_output() {
    let mut app = app_with(vec![recipe("build", vec![])]);
    for _ in 0..3 {
        let id = app.next_session_id();
        record_spawn(&mut app, meta(id));
    }
    reduce(&mut app, Action::MarkRead(2));
    app.active_session = Some(1);
    reduce(&mut app, Action::FocusNextSession);
    assert_eq!(app.active_session, Some(3));
    assert!(!app.sessions[2].unread);
    reduce(&mut app, Action::FocusPrevSession);
    assert_eq!(app.active_session, Some(1));
}

#[test]
fn recipe_exit_keeps_the_shell() {
    let mut app = app_with(vec![recipe("build", vec![])]);
    let id = app.next_session_id();
    record_spawn(&mut app, meta(id));
    reduce(&mut app, Action::RecipeExited { id, code: 0 });
    assert_eq!(app.sessions[0].status, Status::ShellAfterExit { code: 0 });
    reduce(&mut app, Action::SessionExited { id, code: 0 });
    assert_eq!(app.sessions[0].status, Status::Exited { code: 0 });
}

#[test]
fn history_cycles_through_runs() {
    let mut app = app_with(vec![recipe("build", vec![])]);
    for _ in 0..3 {
        let id = app.next_session_id();
        record_spawn(&mut app, meta(id));
    }
    reduce(&mut app, Action::CycleRecipeHistoryPrev);
    assert_eq!(app.active_session, Some(2));
    reduce(&mut app, Action::CycleRecipeHistoryPrev);
    reduce(&mut app, Action::CycleRecipeHistoryPrev);
    assert_eq!(app.active_session, Some(1));
    reduce(&mut app, Action::CycleRecipeHistoryNext);
    assert_eq!(app.active_session, Some(2));
}

#[test]
fn copy_log_path_asks_for_the_clipboard() {
    let mut app = app_with(vec![recipe("build", vec![])]);
    assert!(matches!(reduce(&mut app, Action::CopyLogPath), Effect::Nothing));
    let id = app.next_session_id();
    record_spawn(&mut app, meta(id));
    assert!(matches!(reduce(&mut app, Action::CopyLogPath), Effect::CopyToClipboard(p) if p == "/logs/1.log"));
}

#[test]
fn help_opens_on_the_context_section() {
    let mut app = test_app();
    reduce(&mut app, Action::EnterFilter);
    reduce(&mut app, Action::OpenHelp);
    assert!(matches!(app.mode, Mode::Help { scroll: 0, origin: lazyjust::app::types::SectionId::Filter }));
    reduce(&mut app, Action::HelpScrollUp(3));
    reduce(&mut app, Action::HelpScrollDown(u16::MAX));
    reduce(&mut app, Action::HelpScrollDown(5));
    assert!(matches!(app.mode, Mode::Help { scroll: u16::MAX, .. }));
}

#[test]
fn copying_reports_the_path_only_when_it_reached_the_clipboard() {
    let mut app = test_app();
    clipboard_copied(&mut app, "/logs/1/output.log", false);
    assert_eq!(app.status_message, None);
    clipboard_copied(&mut app, "/logs/1/output.log", true);
    assert_eq!(app.status_message.as_deref(), Some("copied /logs/1/output.log"));
}

#[test]
fn failed_theme_persist_is_reported() {
    let mut app = test_app();
    theme_persisted(&mut app, None);
    assert_eq!(app.status_message, None);
    theme_persisted(&mut app, Some("config file IO error: denied"));
    assert_eq!(app.status_message.as_deref(), Some("theme persist failed: config file IO error: denied"));
}

fn running_meta(id: u64) -> SessionMeta {
    new_session_meta(id, "build", "/p/justfile", &[], "/logs/out.log".to_string(), None)
}

#[test]
fn quit_leaves_at_once_without_live_sessions() {
    let mut app = test_app();
    assert_eq!(exit_after(&app, Action::RequestQuit), Exit::Quit);
    let mut done = running_meta(1);
    done.status = Status::Exited { code: 0 };
    app.sessions.push(done);
    assert_eq!(exit_after(&app, Action::RequestQuit), Exit::Quit);
    app.sessions.push(running_meta(2));
    assert_eq!(exit_after(&app, Action::RequestQuit), Exit::Stay);
    reduce(&mut app, Action::RequestQuit);
    assert!(matches!(app.mode, Mode::Confirm { .. }));
    assert_eq!(exit_after(&app, Action::ConfirmQuit), Exit::KillAllAndQuit);
    assert_eq!(exit_after(&app, Action::CursorDown), Exit::Stay);
}

#[test]
fn output_marks_only_unfocused_sessions_unread() {
    let mut app = test_app();
    let mut a = running_meta(1);
    a.unread = false;
    let mut b = running_meta(2);
    b.unread = false;
    app.sessions.push(a);
    app.sessions.push(b);
    app.active_session = Some(1);
    session_output(&mut app, 1);
    assert!(!app.sessions[0].unread);
    session_output(&mut app, 2);
    assert!(app.sessions[1].unread);
}

#[test]
fn a_tick_clears_the_status_message() {
    let mut app = test_app();
    assert!(!expire_status(&mut app));
    app.status_message = Some("copied x".to_string());
    assert!(expire_status(&mut app));
    assert_eq!(app.status_message, None);
}

fn two_justfiles(mode: ListMode) -> App {
    let a = Justfile { path: "/root/api/justfile".to_string(), recipes: vec![recipe("build", vec![]), recipe("test", vec![])], groups: vec![] };
    let b = Justfile { path: "/root/web/justfile".to_string(), recipes: vec![recipe("dev", vec![])], groups: vec![] };
    App::new(vec![a, b], vec![], 30, DEFAULT_THEME_NAME.to_string(), IconStyle::Round, mode, "/root".to_string())
}

#[test]
fn dropdown_switch_shows_the_picked_justfile() {
    let mut app = two_justfiles(ListMode::Active);
    assert_eq!(app.view.recipe_count(), 2);
    reduce(&mut app, Action::OpenDropdown);
    reduce(&mut app, Action::DropdownCursorDown);
    reduce(&mut app, Action::SelectDropdown);
    assert_eq!(app.active_justfile, 1);
    assert_eq!(app.view.recipe_count(), 1);
    assert_eq!(app.recipe_at_cursor().map(|r| r.name.clone()), Some("dev".to_string()));
    let target = spawn_target(&app).unwrap();
    assert_eq!(target.recipe_name, "dev");
    assert_eq!(target.justfile_path, "/root/web/justfile");
}

#[test]
fn all_mode_runs_the_highlighted_recipe() {
    let mut app = two_justfiles(ListMode::All);
    reduce(&mut app, Action::CursorDown);
    reduce(&mut app, Action::CursorDown);
    assert_eq!(app.list_cursor, 2);
    assert!(run_highlighted(&mut app, false));
    let target = spawn_target(&app).unwrap();
    assert_eq!(target.recipe_name, "dev");
    assert_eq!(target.justfile_path, "/root/web/justfile");
    assert_eq!(target.cwd, "/root/web");
    let id = app.next_session_id();
    record_spawn(&mut app, meta(id));
    assert_eq!(app.justfiles[1].recipes[0].runs, vec![id]);
    assert!(app.justfiles[0].recipes.iter().all(|r| r.runs.is_empty()));
    assert_eq!(app.active_session, Some(id));
}
