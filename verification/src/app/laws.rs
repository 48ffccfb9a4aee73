//! What the reducer keeps, undoes and promises across steps.
use vstd::prelude::*;
use crate::app::action::{Action, EffectView};
use crate::app::reducer::{
    SPLIT_MAX, SPLIT_MIN, is_live, next_unread, prev_unread, open_picker_spec, other_run, other_session, sat_sub1, step,
    step_ok,
};
use crate::app::outcome::{Exit, exit_spec};
use crate::app::state::{AppView, first_with_id, lemma_session_index};
use crate::app::types::{ModeView, SessionId, Status};
use crate::app::view::{all_block, all_rows_upto, build_rows, recipe_positions};
use crate::app::types::JustfileView;

verus! {

/// The recipe-list width never leaves `SPLIT_MIN..=SPLIT_MAX`: every action
/// keeps a width that starts inside the range inside it.
pub proof fn law_split_stays_in_range(s: AppView, a: Action)
    requires
        SPLIT_MIN <= s.split_ratio <= SPLIT_MAX,
    ensures
        SPLIT_MIN <= step(s, a).0.split_ratio <= SPLIT_MAX,
{
}

/// The list cursor never moves past the last recipe row: from a cursor on a
/// recipe row (or at 0 on an empty list), every action leaves it so.
pub proof fn law_cursor_stays_on_a_row(s: AppView, a: Action)
    requires
        s.list_cursor <= sat_sub1(recipe_positions(s.rows).len() as usize),
    ensures
        step(s, a).0.list_cursor <= sat_sub1(recipe_positions(step(s, a).0.rows).len() as usize),
{
    match a {
        Action::SelectDropdown => {},
        _ => {
            assert(step(s, a).0.rows == s.rows);
        },
    }
}

/// The list rows are those the view builds from the justfiles, the list
/// mode and the active justfile.
pub open spec fn rows_synced(s: AppView) -> bool {
    s.rows == build_rows(s.justfiles, s.list_mode, s.active_justfile)
}

/// Two justfile lists with the same number of recipes in each justfile.
pub open spec fn same_shape(a: Seq<JustfileView>, b: Seq<JustfileView>) -> bool {
    a.len() == b.len() && forall|i: int| 0 <= i < a.len() ==> #[trigger] a[i].recipes.len() == b[i].recipes.len()
}

proof fn lemma_all_rows_by_shape(a: Seq<JustfileView>, b: Seq<JustfileView>, n: int)
    requires
        same_shape(a, b),
        n <= a.len(),
    ensures
        all_rows_upto(a, n) == all_rows_upto(b, n),
    decreases n,
{
    if n > 0 {
        lemma_all_rows_by_shape(a, b, n - 1);
        assert(a[n - 1].recipes.len() == b[n - 1].recipes.len());
        assert(all_block(a, n - 1) == all_block(b, n - 1));
    }
}

/// The rows depend on the justfiles only through their recipe counts.
proof fn lemma_rows_by_shape(a: Seq<JustfileView>, b: Seq<JustfileView>, mode: crate::app::types::ListMode, active: usize)
    requires
        same_shape(a, b),
    ensures
        build_rows(a, mode, active) == build_rows(b, mode, active),
{
    lemma_all_rows_by_shape(a, b, a.len() as int);
    if active < a.len() {
        assert(a[active as int].recipes.len() == b[active as int].recipes.len());
    }
}

/// The list always shows what the view builds for the current justfiles,
/// list mode and active justfile: picking another justfile in the dropdown
/// rebuilds it, and no other step changes what it is built from.
pub proof fn law_list_follows_the_justfiles(s: AppView, a: Action)
    requires
        rows_synced(s),
    ensures
        rows_synced(step(s, a).0),
{
    let t = step(s, a).0;
    match a {
        Action::SelectDropdown => {},
        Action::CloseSession(id) => {
            lemma_rows_by_shape(s.justfiles, t.justfiles, s.list_mode, s.active_justfile);
        },
        Action::Confirm(crate::app::types::ConfirmAction::CloseSession(id)) => {
            lemma_rows_by_shape(s.justfiles, t.justfiles, s.list_mode, s.active_justfile);
        },
        _ => {
            assert(t.rows == s.rows && t.justfiles == s.justfiles && t.list_mode == s.list_mode
                && t.active_justfile == s.active_justfile);
        },
    }
}

/// Moving the theme picker keeps the theme under the highlight: the
/// highlight stays on an entry and the theme name is that entry, and the
/// event loop is asked to load it.
pub proof fn law_picker_move_previews_highlighted(s: AppView, delta: isize)
    requires
        step_ok(s, Action::PickerMove(delta)),
        s.mode matches ModeView::ThemePicker { names, .. } && names.len() > 0,
    ensures
        ({
            let (t, e) = step(s, Action::PickerMove(delta));
            &&& t.mode matches ModeView::ThemePicker { highlighted, names, .. }
                && highlighted < names.len() && t.theme_name == names[highlighted as int]
            &&& e == EffectView::ResolveTheme(t.theme_name)
        }),
{
}

/// Cancelling the theme picker undoes every preview: after opening it and
/// moving the highlight any number of steps, cancel restores the theme
/// that was active when the picker opened and returns to normal mode.
pub proof fn law_picker_cancel_restores(s: AppView, names: Seq<Seq<char>>, deltas: Seq<isize>)
    requires
        forall|k: int| 0 <= k < deltas.len() ==> step_ok(#[trigger] moves(open_picker_spec(s, names), deltas.take(k)), Action::PickerMove(deltas[k])),
    ensures
        ({
            let (t, e) = step(moves(open_picker_spec(s, names), deltas), Action::PickerCancel);
            &&& t.theme_name == s.theme_name
            &&& t.mode == ModeView::Normal
            &&& e == EffectView::ResolveTheme(s.theme_name)
        }),
{
    lemma_moves_keep_original(open_picker_spec(s, names), deltas, s.theme_name);
}

/// The state after moving the picker by each of `deltas` in turn.
pub open spec fn moves(s: AppView, deltas: Seq<isize>) -> AppView
    decreases deltas.len(),
{
    if deltas.len() == 0 {
        s
    } else {
        step(moves(s, deltas.drop_last()), Action::PickerMove(deltas.last())).0
    }
}

proof fn lemma_moves_keep_original(s: AppView, deltas: Seq<isize>, orig: Seq<char>)
    requires
        s.mode matches ModeView::ThemePicker { original_name, .. } && original_name == orig,
        forall|k: int| 0 <= k < deltas.len() ==> step_ok(#[trigger] moves(s, deltas.take(k)), Action::PickerMove(deltas[k])),
    ensures
        moves(s, deltas).mode matches ModeView::ThemePicker { original_name, .. } && original_name == orig,
    decreases deltas.len(),
{
    if deltas.len() > 0 {
        let init = deltas.drop_last();
        assert forall|k: int| 0 <= k < init.len() implies step_ok(#[trigger] moves(s, init.take(k)), Action::PickerMove(init[k])) by {
            assert(init.take(k) == deltas.take(k));
            assert(step_ok(moves(s, deltas.take(k)), Action::PickerMove(deltas[k])));
        }
        lemma_moves_keep_original(s, init, orig);
    }
}

/// Confirming the picker keeps the previewed theme, asks for it to be
/// written to the config file and returns to normal mode.
pub proof fn law_picker_confirm_commits(s: AppView)
    requires
        s.mode is ThemePicker,
    ensures
        ({
            let (t, e) = step(s, Action::PickerConfirm);
            &&& t.theme_name == s.theme_name
            &&& t.mode == ModeView::Normal
            &&& e == EffectView::PersistTheme(s.theme_name)
        }),
{
}

/// Closing a session forgets it everywhere: no session carries its id, it
/// is not focused, and no recipe lists it among its runs. Every other
/// session stays, in order.
pub proof fn law_close_forgets_session(s: AppView, id: SessionId)
    ensures
        ({
            let t = step(s, Action::CloseSession(id)).0;
            &&& forall|i: int| 0 <= i < t.sessions.len() ==> (#[trigger] t.sessions[i]).id != id
            &&& t.active_session != Some(id)
            &&& t.justfiles.len() == s.justfiles.len()
            &&& forall|j: int, r: int| 0 <= j < t.justfiles.len() && 0 <= r < t.justfiles[j].recipes.len()
                ==> !(#[trigger] t.justfiles[j].recipes[r]).runs.contains(id)
            &&& t.sessions == s.sessions.filter(other_session(id))
        }),
{
    let t = step(s, Action::CloseSession(id)).0;
    assert forall|i: int| 0 <= i < t.sessions.len() implies (#[trigger] t.sessions[i]).id != id by {
        s.sessions.lemma_filter_pred(other_session(id), i);
    }
    assert forall|j: int, r: int| 0 <= j < t.justfiles.len() && 0 <= r < t.justfiles[j].recipes.len()
        implies !(#[trigger] t.justfiles[j].recipes[r]).runs.contains(id) by {
        let runs = s.justfiles[j].recipes[r].runs;
        if t.justfiles[j].recipes[r].runs.contains(id) {
            let k = choose|k: int| 0 <= k < runs.filter(other_run(id)).len() && runs.filter(other_run(id))[k] == id;
            runs.lemma_filter_pred(other_run(id), k);
        }
    }
}

/// Jumping to the next session lands on the first session after the
/// focused one that has unread output, and marks it read; the sessions in
/// between had none.
pub proof fn law_focus_next_lands_on_unread(s: AppView, i: int, j: int)
    requires
        first_with_id(s.sessions, s.sessions[i].id, i),
        s.active_session == Some(s.sessions[i].id),
        i < j < s.sessions.len(),
        s.sessions[j].unread,
        forall|k: int| i < k < j ==> !s.sessions[k].unread,
        forall|a: int, b: int| 0 <= a < b < s.sessions.len() ==> s.sessions[a].id != s.sessions[b].id,
    ensures
        ({
            let t = step(s, Action::FocusNextSession).0;
            &&& t.active_session == Some(s.sessions[j].id)
            &&& !t.sessions[j].unread
            &&& t.sessions.len() == s.sessions.len()
        }),
{
    let ss = s.sessions;
    lemma_session_index(ss, ss[i].id, i);
    reveal(next_unread);
    let c = choose|c: int| i < c < ss.len() && ss[c].unread && forall|k: int| i < k < c ==> !ss[k].unread;
    assert(c == j) by {
        if c < j { assert(!ss[c].unread); }
        if j < c { assert(!ss[j].unread); }
    }
    assert(first_with_id(ss, ss[j].id, j));
    lemma_session_index(ss, ss[j].id, j);
    let s1 = AppView { active_session: Some(ss[j].id), ..s };
    lemma_session_index(s1.sessions, ss[j].id, j);
}

/// Jumping to the previous session lands on the last session before the
/// focused one that has unread output, and marks it read; the sessions in
/// between had none.
pub proof fn law_focus_prev_lands_on_unread(s: AppView, i: int, j: int)
    requires
        first_with_id(s.sessions, s.sessions[i].id, i),
        s.active_session == Some(s.sessions[i].id),
        0 <= j < i < s.sessions.len(),
        s.sessions[j].unread,
        forall|k: int| j < k < i ==> !s.sessions[k].unread,
        forall|a: int, b: int| 0 <= a < b < s.sessions.len() ==> s.sessions[a].id != s.sessions[b].id,
    ensures
        ({
            let t = step(s, Action::FocusPrevSession).0;
            &&& t.active_session == Some(s.sessions[j].id)
            &&& !t.sessions[j].unread
            &&& t.sessions.len() == s.sessions.len()
        }),
{
    let ss = s.sessions;
    lemma_session_index(ss, ss[i].id, i);
    reveal(prev_unread);
    let c = choose|c: int| 0 <= c < i && c < ss.len() && ss[c].unread && forall|k: int| c < k < i ==> !ss[k].unread;
    assert(c == j) by {
        if c < j { assert(!ss[j].unread); }
        if j < c { assert(!ss[c].unread); }
    }
    assert(first_with_id(ss, ss[j].id, j));
    lemma_session_index(ss, ss[j].id, j);
    let s1 = AppView { active_session: Some(ss[j].id), ..s };
    lemma_session_index(s1.sessions, ss[j].id, j);
}

/// Asking to quit asks for confirmation exactly when a session is still
/// running (or sits in its shell after the recipe ended).
pub proof fn law_quit_confirms_only_with_live_sessions(s: AppView)
    ensures
        step(s, Action::RequestQuit).0.mode is Confirm
            <==> exists|i: int| 0 <= i < s.sessions.len() && is_live(#[trigger] s.sessions[i].status),
{
}

/// Asking to quit never leaves the program as it was: it quits at once
/// when no session is live, and otherwise asks to confirm; accepting
/// kills every session and quits.
pub proof fn law_quit_request_quits_or_asks(s: AppView)
    ensures
        exit_spec(s, Action::RequestQuit) == Exit::Quit || step(s, Action::RequestQuit).0.mode is Confirm,
        exit_spec(s, Action::RequestQuit) == Exit::Quit ==> !(step(s, Action::RequestQuit).0.mode is Confirm),
        exit_spec(s, Action::ConfirmQuit) == Exit::KillAllAndQuit,
{
}

/// When a recipe finishes, its session keeps its shell (status
/// `ShellAfterExit` with the recipe's code); a session in the background is
/// then marked unread, while the focused session's unread flag is left as
/// it was. No session is added or removed.
pub proof fn law_recipe_exit_marks_background_unread(s: AppView, id: SessionId, code: i32, i: int)
    requires
        first_with_id(s.sessions, id, i),
    ensures
        ({
            let t = step(s, Action::RecipeExited { id, code }).0;
            &&& t.sessions.len() == s.sessions.len()
            &&& t.sessions[i].status == Status::ShellAfterExit { code }
            &&& t.sessions[i].id == id
            &&& s.active_session != Some(id) ==> t.sessions[i].unread
            &&& s.active_session == Some(id) ==> t.sessions[i].unread == s.sessions[i].unread
            &&& t.active_session == s.active_session
        }),
{
    lemma_session_index(s.sessions, id, i);
}

/// When a session's shell ends, the session is exited with the shell's
/// code: a session whose recipe was still running also becomes unread; one
/// already back at its shell keeps its unread flag; an exited session is
/// left as it was.
pub proof fn law_session_exit(s: AppView, id: SessionId, code: i32, i: int)
    requires
        first_with_id(s.sessions, id, i),
    ensures
        ({
            let t = step(s, Action::SessionExited { id, code }).0;
            &&& t.sessions.len() == s.sessions.len()
            &&& s.sessions[i].status == Status::Running ==> t.sessions[i].status == (Status::Exited { code }) && t.sessions[i].unread
            &&& s.sessions[i].status is ShellAfterExit ==> t.sessions[i].status == (Status::Exited { code })
                && t.sessions[i].unread == s.sessions[i].unread
            &&& (s.sessions[i].status is Exited || s.sessions[i].status is Broken) ==> t.sessions[i] == s.sessions[i]
        }),
{
    lemma_session_index(s.sessions, id, i);
}

/// Killing a session marks it exited with 130 and asks the event loop to
/// terminate its PTY; nothing else changes.
pub proof fn law_kill_marks_exited(s: AppView, id: SessionId, i: int)
    requires
        first_with_id(s.sessions, id, i),
    ensures
        ({
            let (t, e) = step(s, Action::KillSession(id));
            &&& t.sessions[i].status == Status::Exited { code: 130 }
            &&& t.sessions.len() == s.sessions.len()
            &&& e == EffectView::KillPty(id)
        }),
{
    lemma_session_index(s.sessions, id, i);
}

} // verus!
