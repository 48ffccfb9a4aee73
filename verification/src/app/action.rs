//! Inputs of the reducer and the side effects it asks the event loop for.
use vstd::prelude::*;
use crate::app::types::{ConfirmAction, SessionId};

verus! {

#[derive(Debug, Clone, Copy, PartialEq, Eq, Structural)]
pub enum Action {
    Quit,
    RequestQuit,
    ConfirmQuit,
    CancelConfirm,

    CursorUp,
    CursorDown,
    ToggleGroupCollapse,

    EnterFilter,
    FilterChar(char),
    FilterBackspace,
    CommitFilter,
    CancelFilter,

    OpenDropdown,
    DropdownCursorUp,
    DropdownCursorDown,
    DropdownChar(char),
    DropdownBackspace,
    SelectDropdown,
    CancelDropdown,

    RunHighlighted { force_new: bool },
    CycleRecipeHistoryPrev,
    CycleRecipeHistoryNext,

    ParamChar(char),
    ParamBackspace,
    ParamNext,
    ParamCommit,
    CancelParam,

    FocusNextSession,
    FocusPrevSession,
    FocusList,
    FocusSession,
    CycleFocus,
    RequestKillSession,
    RequestCloseSession,
    KillSession(SessionId),
    CloseSession(SessionId),
    CopyLogPath,

    GrowLeftPane,
    ShrinkLeftPane,
    ResetSplit,

    OpenHelp,
    CloseHelp,
    HelpScrollDown(u16),
    HelpScrollUp(u16),
    HelpScrollHome,
    HelpScrollEnd,

    OpenErrors,
    CloseErrors,

    OpenThemePicker,
    PickerMove(isize),
    PickerConfirm,
    PickerCancel,

    Confirm(ConfirmAction),

    // PTY / external events folded into the reducer by the event loop:
    SessionExited { id: SessionId, code: i32 },
    RecipeExited { id: SessionId, code: i32 },
    MarkUnread(SessionId),
    MarkRead(SessionId),

    NoOp,
}

/// Work the event loop must do after a reducer step.
pub enum Effect {
    Nothing,
    /// Gather the theme names and hand them to `open_theme_picker`.
    ListThemes,
    /// Load the colours of this theme.
    ResolveTheme(String),
    /// Write this theme name to the config file.
    PersistTheme(String),
    /// Put this text on the clipboard.
    CopyToClipboard(String),
    /// Terminate the PTY of this session.
    KillPty(SessionId),
}

pub enum EffectView {
    Nothing,
    ListThemes,
    ResolveTheme(Seq<char>),
    PersistTheme(Seq<char>),
    CopyToClipboard(Seq<char>),
    KillPty(SessionId),
}

impl View for Effect {
    type V = EffectView;

    open spec fn view(&self) -> EffectView {
        match self {
            Effect::Nothing => EffectView::Nothing,
            Effect::ListThemes => EffectView::ListThemes,
            Effect::ResolveTheme(s) => EffectView::ResolveTheme(s@),
            Effect::PersistTheme(s) => EffectView::PersistTheme(s@),
            Effect::CopyToClipboard(s) => EffectView::CopyToClipboard(s@),
            Effect::KillPty(id) => EffectView::KillPty(*id),
        }
    }
}

} // verus!
