//! The event loop's follow-ups: whether the program leaves after an
//! action, and what the state records of outside work (session output, the
//! clipboard, the config file, the passing of time).
use vstd::prelude::*;
use crate::app::action::Action;
use crate::app::reducer::{any_live, is_live, set_unread, set_unread_spec};
use crate::app::state::{App, AppView};
use crate::app::types::SessionId;
use crate::text::push_str;

verus! {

/// What the event loop does with the program after an action.
#[derive(Debug, Clone, Copy, PartialEq, Eq, Structural)]
pub enum Exit {
    /// Keep running.
    Stay,
    /// Leave: no session is live.
    Quit,
    /// Terminate the PTY of every session, then leave.
    KillAllAndQuit,
}

/// Some session is running, or sits in its shell after the recipe ended.
pub open spec fn has_live(s: AppView) -> bool {
    exists|i: int| 0 <= i < s.sessions.len() && is_live(#[trigger] s.sessions[i].status)
}

/// `q` leaves at once when no session is live (otherwise the reducer asks
/// first); accepting that question kills every session and leaves.
pub open spec fn exit_spec(s: AppView, a: Action) -> Exit {
    match a {
        Action::ConfirmQuit => Exit::KillAllAndQuit,
        Action::RequestQuit => if has_live(s) { Exit::Stay } else { Exit::Quit },
        _ => Exit::Stay,
    }
}

pub fn exit_after(app: &App, action: Action) -> (r: Exit)
    ensures
        r == exit_spec(app@, action),
{
    match action {
        Action::ConfirmQuit => Exit::KillAllAndQuit,
        Action::RequestQuit => if any_live(&app.sessions) { Exit::Stay } else { Exit::Quit },
        _ => Exit::Stay,
    }
}

/// Output arrived for session `id`: it is marked unread unless it is the
/// focused session.
pub fn session_output(app: &mut App, id: SessionId)
    ensures
        final(app)@ == (if old(app)@.active_session == Some(id) { old(app)@ } else { set_unread_spec(old(app)@, id, true) }),
{
    if app.active_session != Some(id) {
        set_unread(app, id, true);
    }
}

/// A tick passed: the status message is cleared; `true` when there was one.
pub fn expire_status(app: &mut App) -> (had: bool)
    ensures
        had == old(app)@.status_message is Some,
        final(app)@ == (AppView { status_message: None, ..old(app)@ }),
{
    let had = app.status_message.is_some();
    app.status_message = None;
    had
}

/// After `Effect::CopyToClipboard(path)`: when the text reached the
/// clipboard the status line says `copied <path>`; otherwise nothing changes.
pub fn clipboard_copied(app: &mut App, path: &str, copied: bool)
    ensures
        copied ==> final(app)@ == (AppView { status_message: Some("copied "@ + path@), ..old(app)@ }),
        !copied ==> final(app)@ == old(app)@,
{
    if copied {
        let mut msg = String::new();
        push_str(&mut msg, "copied ");
        push_str(&mut msg, path);
        app.status_message = Some(msg);
    }
}

/// After `Effect::PersistTheme`: a failure to write the config file is
/// reported on the status line as `theme persist failed: <error>`; on
/// success nothing changes.
pub fn theme_persisted(app: &mut App, error: Option<&str>)
    ensures
        match error {
            Some(e) => final(app)@ == (AppView { status_message: Some("theme persist failed: "@ + e@), ..old(app)@ }),
            None => final(app)@ == old(app)@,
        },
{
    if let Some(e) = error {
        let mut msg = String::new();
        push_str(&mut msg, "theme persist failed: ");
        push_str(&mut msg, e);
        app.status_message = Some(msg);
    }
}

} // verus!
