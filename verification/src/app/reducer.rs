//! The reducer: how each action changes the application state.
use vstd::prelude::*;
use crate::app::action::{Action, Effect, EffectView};
use crate::app::filter::{fuzzy_match, fuzzy_spec, str_views};
use crate::app::help_section::{active_section, section_for};
use crate::app::state::{
    App, AppView, first_with_id, lemma_session_index, session_index, sviews,
};
use crate::app::types::{
    ConfirmAction, Focus, JustfileView, Mode, ModeView, RecipeView, SessionId, SessionMeta,
    SessionMetaView, Status,
};
use crate::app::view::{build_rows, jviews, recipe_positions, ListView};
use crate::text::{dec, push_decimal, push_str};

verus! {

/// Smallest, largest, step and default width of the recipe list, in
/// percent of the terminal width.
pub const SPLIT_MIN: u16 = 15;
pub const SPLIT_MAX: u16 = 70;
pub const SPLIT_STEP: u16 = 5;
pub const SPLIT_DEFAULT: u16 = 30;

// ------------------------------------------------------------ the model

pub open spec fn sat_sub1(n: usize) -> usize {
    if n == 0 { 0 } else { (n - 1) as usize }
}

pub open spec fn with_mode(s: AppView, m: ModeView) -> AppView {
    AppView { mode: m, ..s }
}

pub open spec fn cursor_down_spec(s: AppView) -> AppView {
    if s.list_cursor < sat_sub1(recipe_positions(s.rows).len() as usize) {
        AppView { list_cursor: (s.list_cursor + 1) as usize, ..s }
    } else {
        s
    }
}

pub open spec fn grow_spec(s: AppView) -> AppView {
    AppView {
        split_ratio: if s.split_ratio + SPLIT_STEP < SPLIT_MAX { (s.split_ratio + SPLIT_STEP) as u16 } else { SPLIT_MAX },
        ..s
    }
}

pub open spec fn shrink_spec(s: AppView) -> AppView {
    AppView {
        split_ratio: if s.split_ratio < SPLIT_MIN + SPLIT_STEP { SPLIT_MIN } else { (s.split_ratio - SPLIT_STEP) as u16 },
        ..s
    }
}

pub open spec fn is_live(st: Status) -> bool {
    st matches Status::Running || st matches Status::ShellAfterExit { .. }
}

pub open spec fn quit_prompt() -> Seq<char> {
    "Sessions running. Quit & kill all?"@
}

pub open spec fn request_quit_spec(s: AppView) -> AppView {
    if exists|i: int| 0 <= i < s.sessions.len() && is_live(#[trigger] s.sessions[i].status) {
        with_mode(s, ModeView::Confirm { prompt: quit_prompt(), on_accept: ConfirmAction::QuitKillAll })
    } else {
        with_mode(s, ModeView::Normal)
    }
}

pub open spec fn help_scroll_spec(s: AppView, f: spec_fn(u16) -> u16) -> AppView {
    match s.mode {
        ModeView::Help { scroll, origin } => with_mode(s, ModeView::Help { scroll: f(scroll), origin }),
        _ => s,
    }
}

pub open spec fn sat_add_u16(a: u16, b: u16) -> u16 {
    if a + b > u16::MAX { u16::MAX } else { (a + b) as u16 }
}

pub open spec fn sat_sub_u16(a: u16, b: u16) -> u16 {
    if a < b { 0 } else { (a - b) as u16 }
}

pub open spec fn justfile_paths(js: Seq<JustfileView>) -> Seq<Seq<char>> {
    js.map_values(|j: JustfileView| j.path)
}

/// The justfile indices the dropdown lists for `filter`, best match first.
pub open spec fn dropdown_indices(s: AppView, filter: Seq<char>) -> Seq<usize> {
    fuzzy_spec(justfile_paths(s.justfiles), filter).map_values(|p: (usize, u32)| p.0)
}

pub open spec fn select_dropdown_spec(s: AppView) -> AppView {
    match s.mode {
        ModeView::Dropdown { filter, cursor } => {
            let picks = dropdown_indices(s, filter);
            let s1 = if cursor < picks.len() {
                AppView {
                    active_justfile: picks[cursor as int],
                    list_cursor: 0,
                    filter: Seq::empty(),
                    rows: build_rows(s.justfiles, s.list_mode, picks[cursor as int]),
                    ..s
                }
            } else {
                s
            };
            with_mode(s1, ModeView::Normal)
        },
        _ => s,
    }
}

/// Replace the first session carrying `id` by `f` of it.
pub open spec fn update_session(s: AppView, id: SessionId, f: spec_fn(SessionMetaView) -> SessionMetaView) -> AppView {
    match session_index(s.sessions, id) {
        Some(i) => AppView { sessions: s.sessions.update(i, f(s.sessions[i])), ..s },
        None => s,
    }
}

pub open spec fn set_unread_spec(s: AppView, id: SessionId, v: bool) -> AppView {
    update_session(s, id, |m: SessionMetaView| SessionMetaView { unread: v, ..m })
}

pub open spec fn session_exited_spec(s: AppView, id: SessionId, code: i32) -> AppView {
    update_session(s, id, |m: SessionMetaView|
        match m.status {
            Status::Running => SessionMetaView { status: Status::Exited { code }, unread: true, ..m },
            Status::ShellAfterExit { .. } => SessionMetaView { status: Status::Exited { code }, ..m },
            _ => m,
        })
}

pub open spec fn recipe_exited_spec(s: AppView, id: SessionId, code: i32) -> AppView {
    let is_active = s.active_session == Some(id);
    update_session(s, id, |m: SessionMetaView|
        SessionMetaView { status: Status::ShellAfterExit { code }, unread: if is_active { m.unread } else { true }, ..m })
}

pub open spec fn kill_session_spec(s: AppView, id: SessionId) -> AppView {
    update_session(s, id, |m: SessionMetaView| SessionMetaView { status: Status::Exited { code: 130 }, ..m })
}

pub open spec fn cycle_focus_spec(f: Focus) -> Focus {
    match f {
        Focus::List => Focus::Session,
        Focus::Session => Focus::List,
        other => other,
    }
}

/// Focus the session at position `i` and mark it read.
pub open spec fn focus_session_at(s: AppView, i: int) -> AppView {
    let id = s.sessions[i].id;
    set_unread_spec(AppView { active_session: Some(id), ..s }, id, false)
}

/// The first session after position `from` with unread output.
#[verifier::opaque]
pub open spec fn next_unread(ss: Seq<SessionMetaView>, from: int) -> Option<int> {
    if exists|j: int| from < j < ss.len() && ss[j].unread {
        Some(choose|j: int| from < j < ss.len() && ss[j].unread && forall|k: int| from < k < j ==> !ss[k].unread)
    } else {
        None
    }
}

/// The last session before position `from` with unread output.
#[verifier::opaque]
pub open spec fn prev_unread(ss: Seq<SessionMetaView>, from: int) -> Option<int> {
    if exists|j: int| 0 <= j < from && j < ss.len() && ss[j].unread {
        Some(choose|j: int| 0 <= j < from && j < ss.len() && ss[j].unread && forall|k: int| j < k < from ==> !ss[k].unread)
    } else {
        None
    }
}

/// Jump to the next session with unread output after the focused one (the
/// first such session when none is focused).
pub open spec fn focus_next_spec(s: AppView) -> AppView {
    let from = match s.active_session {
        Some(cur) => match session_index(s.sessions, cur) {
            Some(i) => Some(i),
            None => None,
        },
        None => Some(-1),
    };
    match from {
        Some(f) => match next_unread(s.sessions, f) {
            Some(j) => focus_session_at(s, j),
            None => s,
        },
        None => s,
    }
}

/// Jump to the previous session with unread output before the focused one.
pub open spec fn focus_prev_spec(s: AppView) -> AppView {
    match s.active_session {
        Some(cur) => match session_index(s.sessions, cur) {
            Some(i) => match prev_unread(s.sessions, i) {
                Some(j) => focus_session_at(s, j),
                None => s,
            },
            None => s,
        },
        None => s,
    }
}

pub open spec fn param_edit_spec(s: AppView, f: spec_fn(Seq<char>) -> Seq<char>) -> AppView {
    match s.mode {
        ModeView::ParamInput { recipe_idx, values, cursor } =>
            if cursor < values.len() {
                with_mode(s, ModeView::ParamInput { recipe_idx, values: values.update(cursor as int, f(values[cursor as int])), cursor })
            } else {
                s
            },
        _ => s,
    }
}

pub open spec fn param_next_spec(s: AppView) -> AppView {
    match s.mode {
        ModeView::ParamInput { recipe_idx, values, cursor } =>
            if cursor + 1 < values.len() {
                with_mode(s, ModeView::ParamInput { recipe_idx, values, cursor: (cursor + 1) as usize })
            } else {
                s
            },
        _ => s,
    }
}

pub open spec fn session_prompt(verb: Seq<char>, id: SessionId) -> Seq<char> {
    verb + " session "@ + dec(id as nat) + "?"@
}

pub open spec fn request_kill_spec(s: AppView) -> AppView {
    match s.active_session {
        Some(id) => with_mode(s, ModeView::Confirm { prompt: session_prompt("Kill"@, id), on_accept: ConfirmAction::KillSession(id) }),
        None => s,
    }
}

pub open spec fn request_close_spec(s: AppView) -> AppView {
    match s.active_session {
        Some(id) => with_mode(s, ModeView::Confirm { prompt: session_prompt("Close"@, id), on_accept: ConfirmAction::CloseSession(id) }),
        None => s,
    }
}

/// Every run but those of session `id`.
pub open spec fn other_run(id: SessionId) -> spec_fn(SessionId) -> bool {
    |x: SessionId| x != id
}

/// Every session but `id`.
pub open spec fn other_session(id: SessionId) -> spec_fn(SessionMetaView) -> bool {
    |m: SessionMetaView| m.id != id
}

pub open spec fn drop_run(r: RecipeView, id: SessionId) -> RecipeView {
    RecipeView { runs: r.runs.filter(other_run(id)), ..r }
}

pub open spec fn drop_runs(j: JustfileView, id: SessionId) -> JustfileView {
    JustfileView { recipes: j.recipes.map_values(|r: RecipeView| drop_run(r, id)), ..j }
}

/// Closing a session forgets it everywhere: the session list, the focus
/// and the run history of every recipe.
pub open spec fn close_session_spec(s: AppView, id: SessionId) -> AppView {
    AppView {
        sessions: s.sessions.filter(other_session(id)),
        active_session: if s.active_session == Some(id) { None } else { s.active_session },
        justfiles: s.justfiles.map_values(|j: JustfileView| drop_runs(j, id)),
        ..s
    }
}

pub open spec fn copy_log_path_effect(s: AppView) -> EffectView {
    match s.active_session {
        Some(id) => match session_index(s.sessions, id) {
            Some(i) => EffectView::CopyToClipboard(s.sessions[i].log_path),
            None => EffectView::Nothing,
        },
        None => EffectView::Nothing,
    }
}

/// Index of the picker entry after moving `delta` steps, wrapping around.
pub open spec fn picker_index(h: usize, delta: isize, len: nat) -> int {
    ((h as isize) as int + delta) % (len as int)
}

pub open spec fn picker_move_spec(s: AppView, delta: isize) -> (AppView, EffectView) {
    match s.mode {
        ModeView::ThemePicker { original_name, highlighted, names } =>
            if names.len() > 0 {
                let idx = picker_index(highlighted, delta, names.len());
                (AppView {
                    mode: ModeView::ThemePicker { original_name, highlighted: idx as usize, names },
                    theme_name: names[idx],
                    ..s
                }, EffectView::ResolveTheme(names[idx]))
            } else {
                (s, EffectView::Nothing)
            },
        _ => (s, EffectView::Nothing),
    }
}

/// The picker opened over `names`, with the current theme highlighted
/// (or the first entry when the current theme is not among them).
pub open spec fn open_picker_spec(s: AppView, names: Seq<Seq<char>>) -> AppView {
    with_mode(s, ModeView::ThemePicker {
        original_name: s.theme_name,
        highlighted: match first_index(names, s.theme_name) {
            Some(i) => i as usize,
            None => 0,
        },
        names,
    })
}

pub open spec fn picker_confirm_spec(s: AppView) -> (AppView, EffectView) {
    match s.mode {
        ModeView::ThemePicker { .. } => (with_mode(s, ModeView::Normal), EffectView::PersistTheme(s.theme_name)),
        _ => (s, EffectView::Nothing),
    }
}

pub open spec fn picker_cancel_spec(s: AppView) -> (AppView, EffectView) {
    match s.mode {
        ModeView::ThemePicker { original_name, .. } =>
            (AppView { theme_name: original_name, mode: ModeView::Normal, ..s }, EffectView::ResolveTheme(original_name)),
        _ => (s, EffectView::Nothing),
    }
}

/// Position of the first occurrence of `x`.
pub open spec fn first_index<T>(xs: Seq<T>, x: T) -> Option<int> {
    if xs.contains(x) {
        Some(choose|i: int| 0 <= i < xs.len() && xs[i] == x && forall|k: int| 0 <= k < i ==> xs[k] != x)
    } else {
        None
    }
}

/// The runs of the recipe under `list_cursor` in the active justfile.
pub open spec fn cursor_runs(s: AppView) -> Option<Seq<SessionId>> {
    if s.active_justfile < s.justfiles.len() && s.list_cursor < s.justfiles[s.active_justfile as int].recipes.len() {
        Some(s.justfiles[s.active_justfile as int].recipes[s.list_cursor as int].runs)
    } else {
        None
    }
}

/// The run the history cursor lands on, moving `dir` from the focused run
/// (clamped at both ends), or the newest run when none is focused.
pub open spec fn history_target(runs: Seq<SessionId>, active: Option<SessionId>, dir: i32) -> SessionId {
    let pos = match active {
        Some(sid) => first_index(runs, sid),
        None => None,
    };
    match pos {
        Some(i) => {
            let x = ((i as usize) as i32) as int + dir;
            let hi = (((runs.len() - 1) as usize) as i32) as int;
            runs[if x < 0 { 0 } else if x > hi { hi } else { x }]
        },
        None => runs.last(),
    }
}

/// Where the history step would overflow `i32` or clamp with an empty range.
pub open spec fn history_step_ok(s: AppView, dir: i32) -> bool {
    match cursor_runs(s) {
        Some(runs) => runs.len() > 0 ==> {
            &&& (((runs.len() - 1) as usize) as i32) >= 0
            &&& match s.active_session {
                Some(sid) => match first_index(runs, sid) {
                    Some(i) => i32::MIN <= ((i as usize) as i32) as int + dir <= i32::MAX,
                    None => true,
                },
                None => true,
            }
        },
        None => true,
    }
}

pub open spec fn cycle_history_spec(s: AppView, dir: i32) -> AppView {
    match cursor_runs(s) {
        Some(runs) => if runs.len() == 0 {
            s
        } else {
            let next = history_target(runs, s.active_session, dir);
            set_unread_spec(AppView { active_session: Some(next), ..s }, next, false)
        },
        None => s,
    }
}

/// One reducer step: the next state and the effect requested of the event loop.
pub open spec fn step(s: AppView, a: Action) -> (AppView, EffectView) {
    let none = EffectView::Nothing;
    match a {
        Action::CursorDown => (cursor_down_spec(s), none),
        Action::CursorUp => (AppView { list_cursor: sat_sub1(s.list_cursor), ..s }, none),
        Action::EnterFilter => (with_mode(s, ModeView::FilterInput), none),
        Action::FilterChar(c) => (if s.mode is FilterInput { AppView { filter: s.filter.push(c), ..s } } else { s }, none),
        Action::FilterBackspace => (if s.mode is FilterInput && s.filter.len() > 0 { AppView { filter: s.filter.drop_last(), ..s } } else { s }, none),
        Action::CommitFilter => (if s.mode is FilterInput { with_mode(s, ModeView::Normal) } else { s }, none),
        Action::CancelFilter => (AppView { filter: Seq::empty(), mode: ModeView::Normal, ..s }, none),
        Action::GrowLeftPane => (grow_spec(s), none),
        Action::ShrinkLeftPane => (shrink_spec(s), none),
        Action::ResetSplit => (AppView { split_ratio: SPLIT_DEFAULT, ..s }, none),
        Action::RequestQuit => (request_quit_spec(s), none),
        Action::CancelConfirm => (with_mode(s, ModeView::Normal), none),
        Action::OpenHelp => (with_mode(s, ModeView::Help { scroll: 0, origin: section_for(s.mode, s.focus) }), none),
        Action::CloseHelp => (with_mode(s, ModeView::Normal), none),
        Action::HelpScrollDown(n) => (help_scroll_spec(s, |x: u16| sat_add_u16(x, n)), none),
        Action::HelpScrollUp(n) => (help_scroll_spec(s, |x: u16| sat_sub_u16(x, n)), none),
        Action::HelpScrollHome => (help_scroll_spec(s, |x: u16| 0u16), none),
        Action::HelpScrollEnd => (help_scroll_spec(s, |x: u16| u16::MAX), none),
        Action::OpenErrors => (with_mode(s, ModeView::ErrorsList), none),
        Action::CloseErrors => (with_mode(s, ModeView::Normal), none),
        Action::OpenDropdown => (with_mode(s, ModeView::Dropdown { filter: Seq::empty(), cursor: s.active_justfile }), none),
        Action::DropdownChar(c) => (match s.mode {
            ModeView::Dropdown { filter, cursor } => with_mode(s, ModeView::Dropdown { filter: filter.push(c), cursor: 0 }),
            _ => s,
        }, none),
        Action::DropdownBackspace => (match s.mode {
            ModeView::Dropdown { filter, cursor } =>
                if filter.len() > 0 { with_mode(s, ModeView::Dropdown { filter: filter.drop_last(), cursor }) } else { s },
            _ => s,
        }, none),
        Action::DropdownCursorDown => (match s.mode {
            ModeView::Dropdown { filter, cursor } =>
                if cursor < sat_sub1(s.justfiles.len() as usize) {
                    with_mode(s, ModeView::Dropdown { filter, cursor: (cursor + 1) as usize })
                } else {
                    s
                },
            _ => s,
        }, none),
        Action::DropdownCursorUp => (match s.mode {
            ModeView::Dropdown { filter, cursor } => with_mode(s, ModeView::Dropdown { filter, cursor: sat_sub1(cursor) }),
            _ => s,
        }, none),
        Action::SelectDropdown => (select_dropdown_spec(s), none),
        Action::CancelDropdown => (with_mode(s, ModeView::Normal), none),
        Action::SessionExited { id, code } => (session_exited_spec(s, id, code), none),
        Action::RecipeExited { id, code } => (recipe_exited_spec(s, id, code), none),
        Action::MarkUnread(id) => (set_unread_spec(s, id, true), none),
        Action::MarkRead(id) => (set_unread_spec(s, id, false), none),
        Action::CycleFocus => (AppView { focus: cycle_focus_spec(s.focus), ..s }, none),
        Action::FocusList => (AppView { focus: Focus::List, ..s }, none),
        Action::FocusSession => (AppView { focus: Focus::Session, ..s }, none),
        Action::FocusNextSession => (focus_next_spec(s), none),
        Action::FocusPrevSession => (focus_prev_spec(s), none),
        Action::ParamChar(c) => (param_edit_spec(s, |v: Seq<char>| v.push(c)), none),
        Action::ParamBackspace => (param_edit_spec(s, |v: Seq<char>| if v.len() > 0 { v.drop_last() } else { v }), none),
        Action::ParamNext => (param_next_spec(s), none),
        Action::CancelParam => (with_mode(s, ModeView::Normal), none),
        Action::CycleRecipeHistoryPrev => (cycle_history_spec(s, -1i32), none),
        Action::CycleRecipeHistoryNext => (cycle_history_spec(s, 1i32), none),
        Action::RequestKillSession => (request_kill_spec(s), none),
        Action::RequestCloseSession => (request_close_spec(s), none),
        Action::KillSession(id) => (kill_session_spec(s, id), EffectView::KillPty(id)),
        Action::CloseSession(id) => (close_session_spec(s, id), none),
        Action::Confirm(ca) => match ca {
            ConfirmAction::KillSession(id) => (kill_session_spec(with_mode(s, ModeView::Normal), id), EffectView::KillPty(id)),
            ConfirmAction::CloseSession(id) => (close_session_spec(with_mode(s, ModeView::Normal), id), none),
            ConfirmAction::QuitKillAll => (s, none),
        },
        Action::CopyLogPath => (s, copy_log_path_effect(s)),
        Action::OpenThemePicker => (s, EffectView::ListThemes),
        Action::PickerMove(delta) => picker_move_spec(s, delta),
        Action::PickerConfirm => picker_confirm_spec(s),
        Action::PickerCancel => picker_cancel_spec(s),
        // Quit, ConfirmQuit, RunHighlighted and ParamCommit are carried out
        // by the event loop; ToggleGroupCollapse and NoOp change nothing.
        _ => (s, none),
    }
}

/// The inputs on which a step would overflow an integer.
pub open spec fn step_ok(s: AppView, a: Action) -> bool {
    match a {
        Action::ParamNext => s.mode matches ModeView::ParamInput { cursor, .. } ==> cursor < usize::MAX,
        Action::PickerMove(delta) => s.mode matches ModeView::ThemePicker { highlighted, names, .. } ==> {
            &&& names.len() <= isize::MAX
            &&& isize::MIN <= (highlighted as isize) as int + delta <= isize::MAX
        },
        Action::CycleRecipeHistoryPrev => history_step_ok(s, -1i32),
        Action::CycleRecipeHistoryNext => history_step_ok(s, 1i32),
        _ => true,
    }
}

} // verus!

verus! {

fn cursor_down(app: &mut App)
    ensures
        final(app)@ == cursor_down_spec(old(app)@),
{
    let n = app.view.recipe_count();
    let max = if n == 0 { 0 } else { n - 1 };
    if app.list_cursor < max {
        app.list_cursor = app.list_cursor + 1;
    }
}

fn grow_left_pane(app: &mut App)
    ensures
        final(app)@ == grow_spec(old(app)@),
{
    if (app.split_ratio as u32) + (SPLIT_STEP as u32) < (SPLIT_MAX as u32) {
        app.split_ratio = app.split_ratio + SPLIT_STEP;
    } else {
        app.split_ratio = SPLIT_MAX;
    }
}

fn shrink_left_pane(app: &mut App)
    ensures
        final(app)@ == shrink_spec(old(app)@),
{
    if app.split_ratio < SPLIT_MIN + SPLIT_STEP {
        app.split_ratio = SPLIT_MIN;
    } else {
        app.split_ratio = app.split_ratio - SPLIT_STEP;
    }
}

fn filter_char(app: &mut App, c: char)
    ensures
        final(app)@ == (if old(app)@.mode is FilterInput { AppView { filter: old(app)@.filter.push(c), ..old(app)@ } } else { old(app)@ }),
{
    if let Mode::FilterInput = app.mode {
        crate::text::push_char(&mut app.filter, c);
    }
}

fn filter_backspace(app: &mut App)
    ensures
        final(app)@ == (if old(app)@.mode is FilterInput && old(app)@.filter.len() > 0 {
            AppView { filter: old(app)@.filter.drop_last(), ..old(app)@ }
        } else {
            old(app)@
        }),
{
    if let Mode::FilterInput = app.mode {
        pop_char(&mut app.filter);
    }
}

/// Removes the last character, if any (`String::pop`).
#[verifier::external_body]
fn pop_char(s: &mut String)
    ensures
        old(s)@.len() > 0 ==> final(s)@ == old(s)@.drop_last(),
        old(s)@.len() == 0 ==> final(s)@ == old(s)@,
{
    s.pop();
}

pub(crate) fn any_live(sessions: &Vec<SessionMeta>) -> (r: bool)
    ensures
        r == exists|i: int| 0 <= i < sviews(sessions@).len() && is_live(#[trigger] sviews(sessions@)[i].status),
{
    let mut i: usize = 0;
    while i < sessions.len()
        invariant
            i <= sessions.len(),
            forall|k: int| 0 <= k < i ==> !is_live(#[trigger] sviews(sessions@)[k].status),
        decreases sessions.len() - i,
    {
        match sessions[i].status {
            Status::Running | Status::ShellAfterExit { .. } => {
                assert(is_live(sviews(sessions@)[i as int].status));
                return true;
            },
            _ => {},
        }
        i = i + 1;
    }
    false
}

fn request_quit(app: &mut App)
    ensures
        final(app)@ == request_quit_spec(old(app)@),
{
    if any_live(&app.sessions) {
        let mut prompt = String::new();
        push_str(&mut prompt, "Sessions running. Quit & kill all?");
        app.mode = Mode::Confirm { prompt, on_accept: ConfirmAction::QuitKillAll };
    } else {
        app.mode = Mode::Normal;
    }
}

} // verus!

verus! {

fn help_scroll(app: &mut App, op: u8, n: u16)
    requires
        op <= 3,
    ensures
        final(app)@ == help_scroll_spec(old(app)@, |x: u16|
            if op == 0 { sat_add_u16(x, n) } else if op == 1 { sat_sub_u16(x, n) } else if op == 2 { 0u16 } else { u16::MAX }),
{
    match &mut app.mode {
        Mode::Help { scroll, .. } => {
            if op == 0 {
                *scroll = if (*scroll as u32) + (n as u32) > u16::MAX as u32 { u16::MAX } else { *scroll + n };
            } else if op == 1 {
                *scroll = if *scroll < n { 0 } else { *scroll - n };
            } else if op == 2 {
                *scroll = 0;
            } else {
                *scroll = u16::MAX;
            }
        },
        _ => {},
    }
}

fn dropdown_char(app: &mut App, c: char)
    ensures
        final(app)@ == (match old(app)@.mode {
            ModeView::Dropdown { filter, cursor } => with_mode(old(app)@, ModeView::Dropdown { filter: filter.push(c), cursor: 0 }),
            _ => old(app)@,
        }),
{
    match &mut app.mode {
        Mode::Dropdown { filter, cursor } => {
            crate::text::push_char(filter, c);
            *cursor = 0;
        },
        _ => {},
    }
}

fn dropdown_backspace(app: &mut App)
    ensures
        final(app)@ == (match old(app)@.mode {
            ModeView::Dropdown { filter, cursor } =>
                if filter.len() > 0 { with_mode(old(app)@, ModeView::Dropdown { filter: filter.drop_last(), cursor }) } else { old(app)@ },
            _ => old(app)@,
        }),
{
    match &mut app.mode {
        Mode::Dropdown { filter, .. } => {
            pop_char(filter);
        },
        _ => {},
    }
}

fn dropdown_cursor_down(app: &mut App)
    ensures
        final(app)@ == (match old(app)@.mode {
            ModeView::Dropdown { filter, cursor } =>
                if cursor < sat_sub1(old(app)@.justfiles.len() as usize) {
                    with_mode(old(app)@, ModeView::Dropdown { filter, cursor: (cursor + 1) as usize })
                } else {
                    old(app)@
                },
            _ => old(app)@,
        }),
{
    let n = app.justfiles.len();
    let max = if n == 0 { 0 } else { n - 1 };
    match &mut app.mode {
        Mode::Dropdown { cursor, .. } => {
            if *cursor < max {
                *cursor = *cursor + 1;
            }
        },
        _ => {},
    }
}

fn dropdown_cursor_up(app: &mut App)
    ensures
        final(app)@ == (match old(app)@.mode {
            ModeView::Dropdown { filter, cursor } => with_mode(old(app)@, ModeView::Dropdown { filter, cursor: sat_sub1(cursor) }),
            _ => old(app)@,
        }),
{
    match &mut app.mode {
        Mode::Dropdown { cursor, .. } => {
            if *cursor > 0 {
                *cursor = *cursor - 1;
            }
        },
        _ => {},
    }
}

/// The justfile indices the dropdown lists for `filter`: the fuzzy matches
/// of the justfile paths, best first.
pub fn filtered_justfile_indices(app: &App, filter: &str) -> (r: Vec<usize>)
    ensures
        r@ == dropdown_indices(app@, filter@),
{
    let mut refs: Vec<&str> = Vec::new();
    let mut i: usize = 0;
    while i < app.justfiles.len()
        invariant
            i <= app.justfiles.len(),
            str_views(refs@) == justfile_paths(app@.justfiles).take(i as int),
        decreases app.justfiles.len() - i,
    {
        let p = app.justfiles[i].path.as_str();
        assert(p@ == app@.justfiles[i as int].path);
        let ghost before = refs@;
        refs.push(p);
        assert(refs@ == before.push(p));
        assert(str_views(refs@) =~= str_views(before).push(p@));
        i = i + 1;
        assert(str_views(refs@) =~= justfile_paths(app@.justfiles).take(i as int));
    }
    assert(justfile_paths(app@.justfiles).take(i as int) =~= justfile_paths(app@.justfiles));
    let scored = fuzzy_match(refs.as_slice(), filter);
    let mut out: Vec<usize> = Vec::new();
    let mut k: usize = 0;
    while k < scored.len()
        invariant
            k <= scored.len(),
            out@ == scored@.take(k as int).map_values(|p: (usize, u32)| p.0),
        decreases scored.len() - k,
    {
        out.push(scored[k].0);
        k = k + 1;
        assert(out@ =~= scored@.take(k as int).map_values(|p: (usize, u32)| p.0));
    }
    assert(scored@.take(k as int) =~= scored@);
    out
}

fn select_dropdown(app: &mut App)
    ensures
        final(app)@ == select_dropdown_spec(old(app)@),
{
    let picked: Option<usize> = match &app.mode {
        Mode::Dropdown { filter, cursor } => {
            let picks = filtered_justfile_indices(app, filter.as_str());
            if *cursor < picks.len() {
                Some(picks[*cursor])
            } else {
                None
            }
        },
        _ => {
            return;
        },
    };
    if let Some(chosen) = picked {
        app.active_justfile = chosen;
        app.list_cursor = 0;
        app.filter = String::new();
        app.view = ListView::build(&app.justfiles, app.list_mode, chosen);
    }
    app.mode = Mode::Normal;
}

} // verus!

verus! {

/// The view of the sessions after replacing the one at `i`.
proof fn lemma_sviews_update(old_s: Seq<SessionMeta>, new_s: Seq<SessionMeta>, i: int)
    requires
        0 <= i < old_s.len(),
        new_s.len() == old_s.len(),
        forall|k: int| 0 <= k < old_s.len() && k != i ==> new_s[k] == old_s[k],
    ensures
        sviews(new_s) == sviews(old_s).update(i, new_s[i]@),
{
    assert(sviews(new_s) =~= sviews(old_s).update(i, new_s[i]@));
}

pub(crate) fn set_unread(app: &mut App, id: SessionId, v: bool)
    ensures
        final(app)@ == set_unread_spec(old(app)@, id, v),
{
    match app.session_index(id) {
        Some(i) => {
            let ghost before = app.sessions@;
            app.sessions[i].unread = v;
            proof { lemma_sviews_update(before, app.sessions@, i as int); }
            assert(sviews(app.sessions@)[i as int] == SessionMetaView { unread: v, ..sviews(before)[i as int] });
        },
        None => {},
    }
}

fn session_exited(app: &mut App, id: SessionId, code: i32)
    ensures
        final(app)@ == session_exited_spec(old(app)@, id, code),
{
    match app.session_index(id) {
        Some(i) => {
            let ghost before = app.sessions@;
            match app.sessions[i].status {
                Status::Running => {
                    app.sessions[i].status = Status::Exited { code };
                    app.sessions[i].unread = true;
                },
                Status::ShellAfterExit { .. } => {
                    app.sessions[i].status = Status::Exited { code };
                },
                _ => {},
            }
            proof { lemma_sviews_update(before, app.sessions@, i as int); }
        },
        None => {},
    }
}

fn recipe_exited(app: &mut App, id: SessionId, code: i32)
    ensures
        final(app)@ == recipe_exited_spec(old(app)@, id, code),
{
    let is_active = match app.active_session {
        Some(a) => a == id,
        None => false,
    };
    match app.session_index(id) {
        Some(i) => {
            let ghost before = app.sessions@;
            app.sessions[i].status = Status::ShellAfterExit { code };
            if !is_active {
                app.sessions[i].unread = true;
            }
            proof { lemma_sviews_update(before, app.sessions@, i as int); }
        },
        None => {},
    }
}

fn kill_session(app: &mut App, id: SessionId)
    ensures
        final(app)@ == kill_session_spec(old(app)@, id),
{
    match app.session_index(id) {
        Some(i) => {
            let ghost before = app.sessions@;
            app.sessions[i].status = Status::Exited { code: 130 };
            proof { lemma_sviews_update(before, app.sessions@, i as int); }
        },
        None => {},
    }
}

fn focus_at(app: &mut App, i: usize)
    requires
        i < old(app).sessions.len(),
    ensures
        final(app)@ == focus_session_at(old(app)@, i as int),
{
    let id = app.sessions[i].id;
    app.active_session = Some(id);
    set_unread(app, id, false);
}

fn next_unread_index(app: &App, from: usize) -> (r: Option<usize>)
    requires
        from < app.sessions.len(),
    ensures
        r matches Some(j) ==> j < app.sessions.len(),
        match r {
            Some(j) => next_unread(app@.sessions, from as int) == Some(j as int),
            None => next_unread(app@.sessions, from as int) is None,
        },
{
    reveal(next_unread);
    let ghost ss = app@.sessions;
    let mut k: usize = from + 1;
    while k < app.sessions.len()
        invariant
            from < k <= app.sessions.len(),
            ss == app@.sessions,
            forall|t: int| from < t < k ==> !ss[t].unread,
        decreases app.sessions.len() - k,
    {
        if app.sessions[k].unread {
            assert(ss[k as int].unread);
            let ghost c = choose|j: int| from < j < ss.len() && ss[j].unread && forall|t: int| from < t < j ==> !ss[t].unread;
            assert(c == k) by {
                if c < k { assert(!ss[c].unread); }
                if k < c { assert(!ss[k as int].unread); }
            }
            reveal(next_unread);
            return Some(k);
        }
        k = k + 1;
    }
    None
}

fn first_unread_index(app: &App) -> (r: Option<usize>)
    ensures
        r matches Some(j) ==> j < app.sessions.len(),
        match r {
            Some(j) => next_unread(app@.sessions, -1) == Some(j as int),
            None => next_unread(app@.sessions, -1) is None,
        },
{
    reveal(next_unread);
    let ghost ss = app@.sessions;
    let mut k: usize = 0;
    while k < app.sessions.len()
        invariant
            k <= app.sessions.len(),
            ss == app@.sessions,
            forall|t: int| -1 < t < k ==> !ss[t].unread,
        decreases app.sessions.len() - k,
    {
        if app.sessions[k].unread {
            assert(ss[k as int].unread);
            let ghost c = choose|j: int| -1 < j < ss.len() && ss[j].unread && forall|t: int| -1 < t < j ==> !ss[t].unread;
            assert(c == k) by {
                if c < k { assert(!ss[c].unread); }
                if k < c { assert(!ss[k as int].unread); }
            }
            reveal(next_unread);
            return Some(k);
        }
        k = k + 1;
    }
    None
}

fn prev_unread_index(app: &App, from: usize) -> (r: Option<usize>)
    requires
        from <= app.sessions.len(),
    ensures
        r matches Some(j) ==> j < app.sessions.len(),
        match r {
            Some(j) => prev_unread(app@.sessions, from as int) == Some(j as int),
            None => prev_unread(app@.sessions, from as int) is None,
        },
{
    reveal(prev_unread);
    let ghost ss = app@.sessions;
    let mut k: usize = from;
    while k > 0
        invariant
            k <= from <= app.sessions.len(),
            ss == app@.sessions,
            forall|t: int| k <= t < from ==> !ss[t].unread,
        decreases k,
    {
        if app.sessions[k - 1].unread {
            let ghost w = k - 1;
            assert(ss[w].unread);
            let ghost c = choose|j: int| 0 <= j < from && j < ss.len() && ss[j].unread && forall|t: int| j < t < from ==> !ss[t].unread;
            assert(c == w) by {
                if c < w { assert(!ss[w].unread); }
                if w < c { assert(!ss[c].unread); }
            }
            reveal(prev_unread);
            return Some(k - 1);
        }
        k = k - 1;
    }
    None
}

fn focus_next_session(app: &mut App)
    ensures
        final(app)@ == focus_next_spec(old(app)@),
{
    let target = match app.active_session {
        Some(cur) => match app.session_index(cur) {
            Some(i) => next_unread_index(app, i),
            None => None,
        },
        None => first_unread_index(app),
    };
    if let Some(j) = target {
        focus_at(app, j);
    }
}

fn focus_prev_session(app: &mut App)
    ensures
        final(app)@ == focus_prev_spec(old(app)@),
{
    let target = match app.active_session {
        Some(cur) => match app.session_index(cur) {
            Some(i) => prev_unread_index(app, i),
            None => None,
        },
        None => None,
    };
    if let Some(j) = target {
        focus_at(app, j);
    }
}

} // verus!

verus! {

fn param_char(app: &mut App, c: char)
    ensures
        final(app)@ == param_edit_spec(old(app)@, |v: Seq<char>| v.push(c)),
{
    match &mut app.mode {
        Mode::ParamInput { values, cursor, .. } => {
            if *cursor < values.len() {
                let ghost before = values.deep_view();
                crate::text::push_char(&mut values[*cursor], c);
                assert(values.deep_view() =~= before.update(*cursor as int, before[*cursor as int].push(c)));
            }
        },
        _ => {},
    }
}

fn param_backspace(app: &mut App)
    ensures
        final(app)@ == param_edit_spec(old(app)@, |v: Seq<char>| if v.len() > 0 { v.drop_last() } else { v }),
{
    match &mut app.mode {
        Mode::ParamInput { values, cursor, .. } => {
            if *cursor < values.len() {
                let ghost before = values.deep_view();
                pop_char(&mut values[*cursor]);
                assert(values.deep_view() =~= before.update(*cursor as int,
                    if before[*cursor as int].len() > 0 { before[*cursor as int].drop_last() } else { before[*cursor as int] }));
            }
        },
        _ => {},
    }
}

fn param_next(app: &mut App)
    requires
        old(app)@.mode matches ModeView::ParamInput { cursor, .. } ==> cursor < usize::MAX,
    ensures
        final(app)@ == param_next_spec(old(app)@),
{
    match &mut app.mode {
        Mode::ParamInput { values, cursor, .. } => {
            if *cursor + 1 < values.len() {
                *cursor = *cursor + 1;
            }
        },
        _ => {},
    }
}

fn make_prompt(verb: &str, id: SessionId) -> (p: String)
    ensures
        p@ == session_prompt(verb@, id),
{
    let mut p = String::new();
    push_str(&mut p, verb);
    push_str(&mut p, " session ");
    push_decimal(&mut p, id);
    push_str(&mut p, "?");
    p
}

fn request_kill_session(app: &mut App)
    ensures
        final(app)@ == request_kill_spec(old(app)@),
{
    if let Some(id) = app.active_session {
        let prompt = make_prompt("Kill", id);
        app.mode = Mode::Confirm { prompt, on_accept: ConfirmAction::KillSession(id) };
    }
}

fn request_close_session(app: &mut App)
    ensures
        final(app)@ == request_close_spec(old(app)@),
{
    if let Some(id) = app.active_session {
        let prompt = make_prompt("Close", id);
        app.mode = Mode::Confirm { prompt, on_accept: ConfirmAction::CloseSession(id) };
    }
}

fn copy_log_path(app: &App) -> (e: Effect)
    ensures
        e@ == copy_log_path_effect(app@),
{
    if let Some(id) = app.active_session {
        if let Some(i) = app.session_index(id) {
            return Effect::CopyToClipboard(app.sessions[i].log_path.clone());
        }
    }
    Effect::Nothing
}

} // verus!

verus! {

fn filter_runs(runs: &Vec<SessionId>, id: SessionId) -> (r: Vec<SessionId>)
    ensures
        r@ == runs@.filter(other_run(id)),
{
    let mut out: Vec<SessionId> = Vec::new();
    let mut i: usize = 0;
    while i < runs.len()
        invariant
            i <= runs.len(),
            out@ == runs@.take(i as int).filter(other_run(id)),
        decreases runs.len() - i,
    {
        assert(runs@.take(i + 1) == runs@.take(i as int).push(runs@[i as int]));
        proof { runs@.take(i as int).lemma_filter_push(runs@[i as int], other_run(id)); }
        if runs[i] != id {
            out.push(runs[i]);
        }
        i = i + 1;
    }
    assert(runs@.take(i as int) == runs@);
    out
}

fn remove_sessions(app: &mut App, id: SessionId)
    ensures
        final(app)@ == (AppView { sessions: old(app)@.sessions.filter(other_session(id)), ..old(app)@ }),
{
    let ghost orig = sviews(app.sessions@);
    let ghost n = orig.len();
    let mut i: usize = 0;
    let ghost mut j: int = 0;
    while i < app.sessions.len()
        invariant
            0 <= j <= n,
            i <= app.sessions.len(),
            n == orig.len(),
            app.sessions.len() - i == n - j,
            sviews(app.sessions@).take(i as int) == orig.take(j).filter(other_session(id)),
            sviews(app.sessions@).skip(i as int) == orig.skip(j),
            app@ == (AppView { sessions: sviews(app.sessions@), ..old(app)@ }),
        decreases app.sessions.len() - i,
    {
        let ghost before = sviews(app.sessions@);
        assert(orig.take(j + 1) == orig.take(j).push(orig[j]));
        proof { orig.take(j).lemma_filter_push(orig[j], other_session(id)); }
        assert(before[i as int] == orig[j]) by {
            assert(before.skip(i as int)[0] == orig.skip(j)[0]);
        }
        if app.sessions[i].id == id {
            app.sessions.remove(i);
            assert(sviews(app.sessions@) =~= before.take(i as int) + before.skip(i + 1));
            assert(sviews(app.sessions@).take(i as int) =~= before.take(i as int));
            assert(sviews(app.sessions@).skip(i as int) =~= orig.skip(j + 1)) by {
                assert(before.skip(i + 1) =~= before.skip(i as int).skip(1));
                assert(orig.skip(j + 1) =~= orig.skip(j).skip(1));
            }
        } else {
            assert(sviews(app.sessions@).take(i + 1) =~= before.take(i as int).push(before[i as int]));
            assert(sviews(app.sessions@).skip(i + 1) =~= orig.skip(j + 1)) by {
                assert(before.skip(i + 1) =~= before.skip(i as int).skip(1));
                assert(orig.skip(j + 1) =~= orig.skip(j).skip(1));
            }
            i = i + 1;
        }
        proof { j = j + 1; }
    }
    assert(j == n);
    assert(orig.take(j) =~= orig);
    assert(sviews(app.sessions@).take(i as int) =~= sviews(app.sessions@));
}

fn drop_runs_everywhere(app: &mut App, id: SessionId)
    ensures
        final(app)@ == (AppView { justfiles: old(app)@.justfiles.map_values(|j: JustfileView| drop_runs(j, id)), ..old(app)@ }),
{
    let ghost orig = app@.justfiles;
    let mut j: usize = 0;
    while j < app.justfiles.len()
        invariant
            j <= app.justfiles.len(),
            app.justfiles.len() == orig.len(),
            forall|t: int| 0 <= t < j ==> #[trigger] app@.justfiles[t] == drop_runs(orig[t], id),
            forall|t: int| j <= t < orig.len() ==> #[trigger] app@.justfiles[t] == orig[t],
            app@ == (AppView { justfiles: app@.justfiles, ..old(app)@ }),
        decreases app.justfiles.len() - j,
    {
        let ghost jorig = app@.justfiles[j as int];
        let mut k: usize = 0;
        while k < app.justfiles[j].recipes.len()
            invariant
                j < app.justfiles.len(),
                k <= app.justfiles[j as int].recipes.len(),
                app.justfiles.len() == orig.len(),
                jorig == orig[j as int],
                app@.justfiles[j as int].recipes.len() == jorig.recipes.len(),
                app@.justfiles[j as int].path == jorig.path,
                app@.justfiles[j as int].groups == jorig.groups,
                forall|u: int| 0 <= u < k ==> #[trigger] app@.justfiles[j as int].recipes[u] == drop_run(jorig.recipes[u], id),
                forall|u: int| k <= u < jorig.recipes.len() ==> #[trigger] app@.justfiles[j as int].recipes[u] == jorig.recipes[u],
                forall|t: int| 0 <= t < j ==> #[trigger] app@.justfiles[t] == drop_runs(orig[t], id),
                forall|t: int| j < t < orig.len() ==> #[trigger] app@.justfiles[t] == orig[t],
                app@ == (AppView { justfiles: app@.justfiles, ..old(app)@ }),
            decreases app.justfiles[j as int].recipes.len() - k,
        {
            assert(app@.justfiles[j as int].recipes[k as int] == jorig.recipes[k as int]);
            assert(app.justfiles@[j as int].recipes@[k as int].runs@ == jorig.recipes[k as int].runs);
            let new_runs = filter_runs(&app.justfiles[j].recipes[k].runs, id);
            assert(new_runs@ == jorig.recipes[k as int].runs.filter(other_run(id)));
            let ghost before = app@.justfiles;
            app.justfiles[j].recipes[k].runs = new_runs;
            assert(app.justfiles@[j as int].recipes@[k as int].runs@ == jorig.recipes[k as int].runs.filter(other_run(id)));
            assert(app@.justfiles[j as int].recipes[k as int] == drop_run(jorig.recipes[k as int], id));
            assert forall|t: int| 0 <= t < orig.len() && t != j implies #[trigger] app@.justfiles[t] == before[t] by {}
            assert forall|u: int| 0 <= u < jorig.recipes.len() && u != k implies
                #[trigger] app@.justfiles[j as int].recipes[u] == before[j as int].recipes[u] by {}
            k = k + 1;
        }
        assert(app@.justfiles[j as int] == drop_runs(jorig, id)) by {
            assert(app@.justfiles[j as int].recipes =~= jorig.recipes.map_values(|r: RecipeView| drop_run(r, id)));
        }
        j = j + 1;
    }
    assert(app@.justfiles =~= orig.map_values(|jv: JustfileView| drop_runs(jv, id)));
}

fn close_session(app: &mut App, id: SessionId)
    ensures
        final(app)@ == close_session_spec(old(app)@, id),
{
    remove_sessions(app, id);
    if app.active_session == Some(id) {
        app.active_session = None;
    }
    drop_runs_everywhere(app, id);
}

} // verus!

verus! {

/// Euclidean remainder of a negative number: `-(k + 1) mod len`.
proof fn lemma_neg_mod(k: int, len: int)
    requires
        k >= 0,
        len > 0,
    ensures
        (-(k + 1)) % len == len - 1 - k % len,
{
    vstd::arithmetic::div_mod::lemma_fundamental_div_mod(k, len);
    let q = k / len;
    let m = k % len;
    assert(-(k + 1) == (-(q + 1)) * len + (len - 1 - m)) by (nonlinear_arith)
        requires k == len * q + m;
    vstd::arithmetic::div_mod::lemma_fundamental_div_mod_converse(-(k + 1), len, -(q + 1), len - 1 - m);
}

/// `idx` taken modulo `len`, always in `0..len`.
fn wrap_index(idx: isize, len: isize) -> (r: usize)
    requires
        len > 0,
    ensures
        r as int == idx as int % len as int,
        r < len,
{
    if idx >= 0 {
        let r = (idx as usize) % (len as usize);
        r
    } else {
        let k: usize = (-(idx + 1)) as usize;
        let m = k % (len as usize);
        proof { lemma_neg_mod(k as int, len as int); }
        (len as usize) - 1 - m
    }
}

fn picker_move(app: &mut App, delta: isize) -> (e: Effect)
    requires
        step_ok(old(app)@, Action::PickerMove(delta)),
    ensures
        (final(app)@, e@) == picker_move_spec(old(app)@, delta),
{
    let mut chosen: Option<String> = None;
    match &mut app.mode {
        Mode::ThemePicker { highlighted, names, .. } => {
            let len = names.len() as isize;
            if len > 0 {
                let idx = (*highlighted as isize) + delta;
                let h = wrap_index(idx, len);
                *highlighted = h;
                chosen = Some(names[h].clone());
            }
        },
        _ => {},
    }
    match chosen {
        Some(stem) => {
            app.theme_name = stem.clone();
            Effect::ResolveTheme(stem)
        },
        None => Effect::Nothing,
    }
}

fn picker_confirm(app: &mut App) -> (e: Effect)
    ensures
        (final(app)@, e@) == picker_confirm_spec(old(app)@),
{
    if let Mode::ThemePicker { .. } = app.mode {
        app.mode = Mode::Normal;
        Effect::PersistTheme(app.theme_name.clone())
    } else {
        Effect::Nothing
    }
}

fn picker_cancel(app: &mut App) -> (e: Effect)
    ensures
        (final(app)@, e@) == picker_cancel_spec(old(app)@),
{
    let original = match &app.mode {
        Mode::ThemePicker { original_name, .. } => Some(original_name.clone()),
        _ => None,
    };
    match original {
        Some(name) => {
            app.theme_name = name.clone();
            app.mode = Mode::Normal;
            Effect::ResolveTheme(name)
        },
        None => Effect::Nothing,
    }
}

/// Position of the first name equal to `name`.
fn position_of_name(names: &Vec<String>, name: &String) -> (r: Option<usize>)
    ensures
        r == (match first_index(names.deep_view(), name@) {
            Some(i) => Some(i as usize),
            None => None,
        }),
{
    let ghost ns = names.deep_view();
    let mut i: usize = 0;
    while i < names.len()
        invariant
            i <= names.len(),
            ns == names.deep_view(),
            forall|k: int| 0 <= k < i ==> ns[k] != name@,
        decreases names.len() - i,
    {
        if names[i] == *name {
            assert(ns[i as int] == name@);
            assert(ns.contains(name@));
            let ghost j = choose|j: int| 0 <= j < ns.len() && ns[j] == name@ && forall|k: int| 0 <= k < j ==> ns[k] != name@;
            assert(j == i) by {
                if j < i { assert(ns[j] != name@); }
                if i < j { assert(ns[i as int] != name@); }
            }
            return Some(i);
        }
        i = i + 1;
    }
    assert(!ns.contains(name@));
    None
}

/// Opens the theme picker over `names` (what `Effect::ListThemes` gathered),
/// highlighting the current theme.
pub fn open_theme_picker(app: &mut App, names: Vec<String>)
    ensures
        final(app)@ == open_picker_spec(old(app)@, names.deep_view()),
{
    let original_name = app.theme_name.clone();
    let highlighted = match position_of_name(&names, &original_name) {
        Some(i) => i,
        None => 0,
    };
    app.mode = Mode::ThemePicker { original_name, highlighted, names };
}

} // verus!

verus! {

/// A non-negative `i32` truncation of `n` never exceeds `n`.
proof fn lemma_trunc_i32_le(n: usize)
    requires
        (n as i32) >= 0,
    ensures
        (n as i32) as int <= n as int,
{
    assert(((n as i32) >= 0) ==> ((n as i32) as usize) <= n) by (bit_vector);
    assert(((n as i32) >= 0) ==> ((n as i32) as usize) as int == (n as i32) as int) by (bit_vector);
}

fn position_of_run(runs: &Vec<SessionId>, sid: SessionId) -> (r: Option<usize>)
    ensures
        r == (match first_index(runs@, sid) {
            Some(i) => Some(i as usize),
            None => None,
        }),
{
    let mut i: usize = 0;
    while i < runs.len()
        invariant
            i <= runs.len(),
            forall|k: int| 0 <= k < i ==> runs@[k] != sid,
        decreases runs.len() - i,
    {
        if runs[i] == sid {
            assert(runs@.contains(sid));
            let ghost j = choose|j: int| 0 <= j < runs@.len() && runs@[j] == sid && forall|k: int| 0 <= k < j ==> runs@[k] != sid;
            assert(j == i) by {
                if j < i { assert(runs@[j] != sid); }
                if i < j { assert(runs@[i as int] != sid); }
            }
            return Some(i);
        }
        i = i + 1;
    }
    assert(!runs@.contains(sid));
    None
}

fn cycle_history(app: &mut App, dir: i32)
    requires
        history_step_ok(old(app)@, dir),
    ensures
        final(app)@ == cycle_history_spec(old(app)@, dir),
{
    if app.active_justfile >= app.justfiles.len() {
        return;
    }
    if app.list_cursor >= app.justfiles[app.active_justfile].recipes.len() {
        return;
    }
    let runs = &app.justfiles[app.active_justfile].recipes[app.list_cursor].runs;
    assert(cursor_runs(app@) == Some(runs@));
    if runs.len() == 0 {
        return;
    }
    let pos = match app.active_session {
        Some(sid) => position_of_run(runs, sid),
        None => None,
    };
    let next = match pos {
        Some(i) => {
            let hi: i32 = (runs.len() - 1) as i32;
            proof { lemma_trunc_i32_le((runs.len() - 1) as usize); }
            let x: i32 = (i as i32) + dir;
            let c: i32 = if x < 0 { 0 } else if x > hi { hi } else { x };
            runs[c as usize]
        },
        None => runs[runs.len() - 1],
    };
    app.active_session = Some(next);
    set_unread(app, next, false);
}

} // verus!

verus! {

/// Applies one action to the state and returns the side effect the event
/// loop has to carry out (clipboard, theme files, PTY termination).
pub fn reduce(app: &mut App, action: Action) -> (e: Effect)
    requires
        step_ok(old(app)@, action),
    ensures
        (final(app)@, e@) == step(old(app)@, action),
{
    match action {
        Action::CursorDown => cursor_down(app),
        Action::CursorUp => {
            if app.list_cursor > 0 {
                app.list_cursor = app.list_cursor - 1;
            }
        },
        Action::EnterFilter => app.mode = Mode::FilterInput,
        Action::FilterChar(c) => filter_char(app, c),
        Action::FilterBackspace => filter_backspace(app),
        Action::CommitFilter => {
            if let Mode::FilterInput = app.mode {
                app.mode = Mode::Normal;
            }
        },
        Action::CancelFilter => {
            app.filter = String::new();
            app.mode = Mode::Normal;
        },
        Action::GrowLeftPane => grow_left_pane(app),
        Action::ShrinkLeftPane => shrink_left_pane(app),
        Action::ResetSplit => app.split_ratio = SPLIT_DEFAULT,
        Action::RequestQuit => request_quit(app),
        Action::CancelConfirm => app.mode = Mode::Normal,
        Action::OpenHelp => {
            let origin = active_section(app);
            app.mode = Mode::Help { scroll: 0, origin };
        },
        Action::CloseHelp => app.mode = Mode::Normal,
        Action::HelpScrollDown(n) => help_scroll(app, 0, n),
        Action::HelpScrollUp(n) => help_scroll(app, 1, n),
        Action::HelpScrollHome => help_scroll(app, 2, 0),
        Action::HelpScrollEnd => help_scroll(app, 3, 0),
        Action::OpenErrors => app.mode = Mode::ErrorsList,
        Action::CloseErrors => app.mode = Mode::Normal,
        Action::OpenDropdown => {
            app.mode = Mode::Dropdown { filter: String::new(), cursor: app.active_justfile };
        },
        Action::DropdownChar(c) => dropdown_char(app, c),
        Action::DropdownBackspace => dropdown_backspace(app),
        Action::DropdownCursorDown => dropdown_cursor_down(app),
        Action::DropdownCursorUp => dropdown_cursor_up(app),
        Action::SelectDropdown => select_dropdown(app),
        Action::CancelDropdown => app.mode = Mode::Normal,
        Action::SessionExited { id, code } => session_exited(app, id, code),
        Action::RecipeExited { id, code } => recipe_exited(app, id, code),
        Action::MarkUnread(id) => set_unread(app, id, true),
        Action::MarkRead(id) => set_unread(app, id, false),
        Action::CycleFocus => {
            app.focus = match app.focus {
                Focus::List => Focus::Session,
                Focus::Session => Focus::List,
                other => other,
            };
        },
        Action::FocusList => app.focus = Focus::List,
        Action::FocusSession => app.focus = Focus::Session,
        Action::FocusNextSession => focus_next_session(app),
        Action::FocusPrevSession => focus_prev_session(app),
        Action::ParamChar(c) => param_char(app, c),
        Action::ParamBackspace => param_backspace(app),
        Action::ParamNext => param_next(app),
        Action::CancelParam => app.mode = Mode::Normal,
        Action::CycleRecipeHistoryPrev => cycle_history(app, -1),
        Action::CycleRecipeHistoryNext => cycle_history(app, 1),
        Action::RequestKillSession => request_kill_session(app),
        Action::RequestCloseSession => request_close_session(app),
        Action::KillSession(id) => {
            kill_session(app, id);
            return Effect::KillPty(id);
        },
        Action::CloseSession(id) => close_session(app, id),
        Action::Confirm(ca) => match ca {
            ConfirmAction::KillSession(id) => {
                app.mode = Mode::Normal;
                kill_session(app, id);
                return Effect::KillPty(id);
            },
            ConfirmAction::CloseSession(id) => {
                app.mode = Mode::Normal;
                close_session(app, id);
            },
            ConfirmAction::QuitKillAll => {},
        },
        Action::CopyLogPath => return copy_log_path(app),
        Action::OpenThemePicker => return Effect::ListThemes,
        Action::PickerMove(delta) => return picker_move(app, delta),
        Action::PickerConfirm => return picker_confirm(app),
        Action::PickerCancel => return picker_cancel(app),
        _ => {},
    }
    Effect::Nothing
}

} // verus!
