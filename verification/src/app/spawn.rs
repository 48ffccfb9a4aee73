//! What running the highlighted recipe does to the state before and after
//! a PTY is spawned.
use vstd::prelude::*;
use crate::app::reducer::{is_live, set_unread_spec};
use crate::app::state::{App, AppView, recipe_at_cursor_spec};
use crate::app::types::{
    Focus, Mode, ModeView, Param, ParamView, RecipeView, SessionId, SessionMeta, SessionMetaView, Status,
};
use crate::discovery::walk::{path_parent, std_path_parent};

verus! {

/// Some session with this id is still running (or sits in its shell).
pub open spec fn live_id(ss: Seq<SessionMetaView>, id: SessionId) -> bool {
    exists|i: int| 0 <= i < ss.len() && ss[i].id == id && is_live(ss[i].status)
}

/// The newest run of a recipe whose session is live.
pub open spec fn newest_live_run(ss: Seq<SessionMetaView>, runs: Seq<SessionId>) -> Option<SessionId> {
    if exists|k: int| 0 <= k < runs.len() && #[trigger] live_id(ss, runs[k]) {
        let k = choose|k: int| 0 <= k < runs.len() && #[trigger] live_id(ss, runs[k])
            && forall|m: int| k < m < runs.len() ==> !live_id(ss, runs[m]);
        Some(runs[k])
    } else {
        None
    }
}

/// The default values offered for a recipe's parameters (empty when a
/// parameter has none).
pub open spec fn param_defaults(ps: Seq<ParamView>) -> Seq<Seq<char>> {
    ps.map_values(|p: ParamView| match p.default { Some(d) => d, None => Seq::empty() })
}

/// Running the highlighted recipe: jump to its newest live session (unless
/// a new one is forced), or ask for its parameters, or spawn (`true`).
pub open spec fn run_highlighted_spec(s: AppView, force_new: bool) -> (AppView, bool) {
    match recipe_at_cursor_spec(s) {
        None => (s, true),
        Some((j, k)) => {
            let r = s.justfiles[j as int].recipes[k as int];
            match (if force_new { None } else { newest_live_run(s.sessions, r.runs) }) {
                Some(sid) => (set_unread_spec(AppView { active_session: Some(sid), ..s }, sid, false), false),
                None => if r.params.len() > 0 {
                    (AppView { mode: ModeView::ParamInput { recipe_idx: s.list_cursor, values: param_defaults(r.params), cursor: 0 }, ..s }, false)
                } else {
                    (s, true)
                },
            }
        },
    }
}

fn is_live_id(app: &App, id: SessionId) -> (r: bool)
    ensures
        r == live_id(app@.sessions, id),
{
    let mut i: usize = 0;
    while i < app.sessions.len()
        invariant
            i <= app.sessions.len(),
            forall|k: int| 0 <= k < i ==> !(app@.sessions[k].id == id && is_live(app@.sessions[k].status)),
        decreases app.sessions.len() - i,
    {
        let live = match app.sessions[i].status {
            Status::Running | Status::ShellAfterExit { .. } => true,
            _ => false,
        };
        if app.sessions[i].id == id && live {
            assert(app@.sessions[i as int].id == id && is_live(app@.sessions[i as int].status));
            return true;
        }
        i = i + 1;
    }
    false
}

fn newest_live(app: &App, runs: &Vec<SessionId>) -> (r: Option<SessionId>)
    ensures
        r == newest_live_run(app@.sessions, runs@),
{
    let ghost ss = app@.sessions;
    let mut k: usize = runs.len();
    while k > 0
        invariant
            k <= runs.len(),
            ss == app@.sessions,
            forall|m: int| k <= m < runs@.len() ==> !live_id(ss, runs@[m]),
        decreases k,
    {
        if is_live_id(app, runs[k - 1]) {
            let ghost w = (k - 1) as int;
            let ghost c = choose|c: int| 0 <= c < runs@.len() && #[trigger] live_id(ss, runs@[c])
                && forall|m: int| c < m < runs@.len() ==> !live_id(ss, runs@[m]);
            assert(live_id(ss, runs@[w]));
            assert(c == w) by {
                if c < w { assert(!live_id(ss, runs@[w])); }
                if w < c { assert(!live_id(ss, runs@[c])); }
            }
            return Some(runs[k - 1]);
        }
        k = k - 1;
    }
    None
}

fn defaults_of(ps: &Vec<Param>) -> (r: Vec<String>)
    ensures
        r.deep_view() == param_defaults(ps@.map_values(|p: Param| p@)),
{
    let ghost pv = ps@.map_values(|p: Param| p@);
    let mut r: Vec<String> = Vec::new();
    let mut i: usize = 0;
    while i < ps.len()
        invariant
            i <= ps.len(),
            pv == ps@.map_values(|p: Param| p@),
            r.deep_view() == param_defaults(pv).take(i as int),
        decreases ps.len() - i,
    {
        let v = match &ps[i].default {
            Some(d) => d.clone(),
            None => String::new(),
        };
        assert(pv[i as int] == ps@[i as int]@);
        assert(v@ == param_defaults(pv)[i as int]);
        let ghost before = r.deep_view();
        r.push(v);
        assert(r.deep_view() =~= before.push(v@));
        assert(param_defaults(pv).take(i + 1) =~= param_defaults(pv).take(i as int).push(param_defaults(pv)[i as int]));
        i = i + 1;
    }
    assert(param_defaults(pv).take(i as int) =~= param_defaults(pv));
    r
}

/// Runs the highlighted recipe as far as the state goes; `true` when a
/// session has to be spawned for it (with no arguments).
pub fn run_highlighted(app: &mut App, force_new: bool) -> (spawn: bool)
    ensures
        (final(app)@, spawn) == run_highlighted_spec(old(app)@, force_new),
{
    let (j, k) = match app.view.recipe_at(app.list_cursor) {
        Some((j, k)) => {
            if j < app.justfiles.len() && k < app.justfiles[j].recipes.len() {
                (j, k)
            } else {
                return true;
            }
        },
        None => {
            return true;
        },
    };
    assert(recipe_at_cursor_spec(app@) == Some((j, k)));
    let target = if force_new { None } else { newest_live(app, &app.justfiles[j].recipes[k].runs) };
    match target {
        Some(sid) => {
            app.active_session = Some(sid);
            crate::app::reducer::set_unread(app, sid, false);
            false
        },
        None => {
            if app.justfiles[j].recipes[k].params.len() > 0 {
                let values = defaults_of(&app.justfiles[j].recipes[k].params);
                app.mode = Mode::ParamInput { recipe_idx: app.list_cursor, values, cursor: 0 };
                false
            } else {
                true
            }
        },
    }
}

/// What to spawn: the recipe at the cursor of the active justfile, the
/// justfile, and the directory to run in (the justfile's parent, or `.`).
pub struct SpawnTarget {
    pub recipe_name: String,
    pub justfile_path: String,
    pub cwd: String,
}

pub fn spawn_target(app: &App) -> (r: Option<SpawnTarget>)
    ensures
        match recipe_at_cursor_spec(app@) {
            Some((j, k)) => r matches Some(t)
                && t.recipe_name@ == app@.justfiles[j as int].recipes[k as int].name
                && t.justfile_path@ == app@.justfiles[j as int].path
                && t.cwd@ == match std_path_parent(t.justfile_path@) { Some(p) => p, None => "."@ },
            None => r is None,
        },
{
    let (j, k) = match app.view.recipe_at(app.list_cursor) {
        Some((j, k)) => {
            if j < app.justfiles.len() && k < app.justfiles[j].recipes.len() {
                (j, k)
            } else {
                return None;
            }
        },
        None => {
            return None;
        },
    };
    let jf = &app.justfiles[j];
    let cwd = match path_parent(jf.path.as_str()) {
        Some(p) => p,
        None => crate::discovery::parse::text("."),
    };
    Some(SpawnTarget {
        recipe_name: jf.recipes[k].name.clone(),
        justfile_path: jf.path.clone(),
        cwd,
    })
}

/// Commits the parameter form: back to normal mode with the cursor on the
/// recipe the form was for; the entered values, when the form was open.
pub fn take_param_values(app: &mut App) -> (r: Option<Vec<String>>)
    ensures
        match old(app)@.mode {
            ModeView::ParamInput { recipe_idx, values, .. } => (r matches Some(v) && v.deep_view() == values)
                && final(app)@ == (AppView { mode: ModeView::Normal, list_cursor: recipe_idx, ..old(app)@ }),
            _ => r is None && final(app)@ == old(app)@,
        },
{
    match &app.mode {
        Mode::ParamInput { .. } => {},
        _ => {
            return None;
        },
    }
    let mut mode = Mode::Normal;
    std::mem::swap(&mut app.mode, &mut mode);
    match mode {
        Mode::ParamInput { recipe_idx, values, .. } => {
            app.list_cursor = recipe_idx;
            Some(values)
        },
        _ => None,
    }
}

/// Takes a spawned session in: it joins the list, gets the focus, and
/// becomes the newest run of the recipe under the cursor.
pub open spec fn record_spawn_spec(s: AppView, m: SessionMetaView) -> AppView {
    let js = match recipe_at_cursor_spec(s) {
        Some((j0, k0)) => {
            let j = j0 as int;
            let k = k0 as int;
            s.justfiles.update(j, crate::app::types::JustfileView {
                recipes: s.justfiles[j].recipes.update(k, RecipeView { runs: s.justfiles[j].recipes[k].runs.push(m.id), ..s.justfiles[j].recipes[k] }),
                ..s.justfiles[j]
            })
        },
        None => s.justfiles,
    };
    AppView { sessions: s.sessions.push(m), active_session: Some(m.id), focus: Focus::Session, justfiles: js, ..s }
}

pub fn record_spawn(app: &mut App, meta: SessionMeta)
    ensures
        final(app)@ == record_spawn_spec(old(app)@, meta@),
{
    let id = meta.id;
    let ghost mv = meta@;
    let ghost before = app@;
    let ghost ss = app.sessions@;
    app.sessions.push(meta);
    assert(crate::app::state::sviews(app.sessions@) =~= before.sessions.push(mv));
    app.active_session = Some(id);
    app.focus = Focus::Session;
    let (aj, cursor) = match app.view.recipe_at(app.list_cursor) {
        Some((j, k)) => (j, k),
        None => {
            return;
        },
    };
    if aj < app.justfiles.len() && cursor < app.justfiles[aj].recipes.len() {
        let ghost js = app.justfiles@;
        app.justfiles[aj].recipes[cursor].runs.push(id);
        assert(crate::app::view::jviews(app.justfiles@) =~= record_spawn_spec(before, mv).justfiles) by {
            assert(app.justfiles@[aj as int].recipes@.map_values(|r: crate::app::types::Recipe| r@)
                =~= before.justfiles[aj as int].recipes.update(cursor as int,
                    RecipeView { runs: before.justfiles[aj as int].recipes[cursor as int].runs.push(id), ..before.justfiles[aj as int].recipes[cursor as int] }));
        }
    }
}

} // verus!
