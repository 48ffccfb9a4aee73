use lazyjust::app::state::App;
use lazyjust::app::types::{Justfile, ListMode, Recipe};
use lazyjust::app::view::{ListView, RowRef};
use lazyjust::ui::icon_style::IconStyle;

fn recipe(n: &str) -> Recipe {
    Recipe {
        name: n.to_string(),
        modules: vec![],
        group: None,
        params: vec![],
        doc: None,
        command_preview: String::new(),
        runs: vec![],
        dependencies: vec![],
    }
}

fn jf(path: &str, names: &[&str]) -> Justfile {
    Justfile { path: path.to_string(), recipes: names.iter().map(|n| recipe(n)).collect(), groups: vec![] }
}

#[test]
fn active_mode_emits_recipe_rows_for_active_justfile_only() {
    let files = vec![jf("a/justfile", &["x", "y"]), jf("b/justfile", &["z"])];
    let v = ListView::build(&files, ListMode::Active, 0);
    assert_eq!(
        v.rows,
        vec![RowRef::Recipe { jf_idx: 0, recipe_idx: 0 }, RowRef::Recipe { jf_idx: 0, recipe_idx: 1 }]
    );
}

#[test]
fn active_mode_with_invalid_active_index_is_empty() {
    let files = vec![jf("a/justfile", &["x"])];
    let v = ListView::build(&files, ListMode::Active, 99);
    assert!(v.rows.is_empty());
}

#[test]
fn all_mode_emits_header_then_recipes_per_justfile() {
    let files = vec![jf("a/justfile", &["x", "y"]), jf("b/justfile", &["z"])];
    let v = ListView::build(&files, ListMode::All, 0);
    assert_eq!(
        v.rows,
        vec![
            RowRef::Header { jf_idx: 0 },
            RowRef::Recipe { jf_idx: 0, recipe_idx: 0 },
            RowRef::Recipe { jf_idx: 0, recipe_idx: 1 },
            RowRef::Header { jf_idx: 1 },
            RowRef::Recipe { jf_idx: 1, recipe_idx: 0 },
        ]
    );
}

#[test]
fn all_mode_skips_zero_recipe_justfiles() {
    let files = vec![jf("a/justfile", &["x"]), jf("b/justfile", &[]), jf("c/justfile", &["y"])];
    let v = ListView::build(&files, ListMode::All, 0);
    assert_eq!(
        v.rows,
        vec![
            RowRef::Header { jf_idx: 0 },
            RowRef::Recipe { jf_idx: 0, recipe_idx: 0 },
            RowRef::Header { jf_idx: 2 },
            RowRef::Recipe { jf_idx: 2, recipe_idx: 0 },
        ]
    );
}

#[test]
fn recipe_at_skips_headers() {
    let files = vec![jf("a/justfile", &["x", "y"]), jf("b/justfile", &["z"])];
    let v = ListView::build(&files, ListMode::All, 0);
    assert_eq!(v.recipe_at(0), Some((0, 0)));
    assert_eq!(v.recipe_at(1), Some((0, 1)));
    assert_eq!(v.recipe_at(2), Some((1, 0)));
    assert_eq!(v.recipe_at(3), None);
}

#[test]
fn recipe_count_excludes_headers() {
    let files = vec![jf("a/justfile", &["x"]), jf("b/justfile", &["y"])];
    let v_active = ListView::build(&files, ListMode::Active, 0);
    assert_eq!(v_active.recipe_count(), 1);
    let v_all = ListView::build(&files, ListMode::All, 0);
    assert_eq!(v_all.recipe_count(), 2);
}

#[test]
fn active_mode_uses_jf_idx_of_active_justfile_not_zero() {
    let files = vec![jf("a/justfile", &["x"]), jf("b/justfile", &["y", "z"])];
    let v = ListView::build(&files, ListMode::Active, 1);
    assert_eq!(
        v.rows,
        vec![RowRef::Recipe { jf_idx: 1, recipe_idx: 0 }, RowRef::Recipe { jf_idx: 1, recipe_idx: 1 }]
    );
}

fn new_app(files: Vec<Justfile>, mode: ListMode, root: &str) -> App {
    App::new(files, vec![], 30, "tokyo-night".to_string(), IconStyle::Round, mode, root.to_string())
}

#[test]
fn new_initializes_view_for_active_mode_by_default() {
    let app = new_app(vec![jf("/x/justfile", &["a", "b"])], ListMode::Active, "/x");
    assert_eq!(app.list_mode, ListMode::Active);
    assert_eq!(app.discovery_root, "/x");
    assert_eq!(app.view.recipe_count(), 2);
}

#[test]
fn new_initializes_view_for_all_mode() {
    let app = new_app(vec![jf("/r/a/justfile", &["ra1"]), jf("/r/b/justfile", &["rb1", "rb2"])], ListMode::All, "/r");
    assert_eq!(app.list_mode, ListMode::All);
    assert_eq!(app.view.recipe_count(), 3);
    assert_eq!(app.view.rows.len(), 5);
}

#[test]
fn recipe_at_cursor_follows_the_view() {
    let mut app = new_app(vec![jf("/r/a/justfile", &["ra1"]), jf("/r/b/justfile", &["rb1", "rb2"])], ListMode::All, "/r");
    app.list_cursor = 2;
    assert_eq!(app.recipe_at_cursor().map(|r| r.name.clone()), Some("rb2".to_string()));
    app.list_cursor = 3;
    assert!(app.recipe_at_cursor().is_none());
}

#[test]
fn session_ids_count_up_from_one() {
    let mut app = new_app(vec![], ListMode::Active, "/");
    assert_eq!(app.next_session_id(), 1);
    assert_eq!(app.next_session_id(), 2);
}
