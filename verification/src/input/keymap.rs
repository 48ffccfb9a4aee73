//! Which action each key stands for, mode by mode.
use vstd::prelude::*;
use crate::app::action::Action;
use crate::app::types::{ConfirmAction, Focus, Mode, ModeView};
use crate::input::keys::{InputEvent, KeyCode, KeyEvent, KeyMods, encode_key, key_bytes};

verus! {

pub open spec fn normal_key(k: KeyEvent) -> Option<Action> {
    let ctrl = k.mods.ctrl;
    let shift = k.mods.shift;
    match k.code {
        KeyCode::Char(c) => if !ctrl {
            if c == 'q' { Some(Action::RequestQuit) }
            else if c == 'j' { Some(Action::CursorDown) }
            else if c == 'k' { Some(Action::CursorUp) }
            else if c == 'h' { Some(Action::CycleRecipeHistoryPrev) }
            else if c == 'l' { Some(Action::CycleRecipeHistoryNext) }
            else if c == '/' { Some(Action::EnterFilter) }
            else if c == 'd' { Some(Action::OpenDropdown) }
            else if c == '?' { Some(Action::OpenHelp) }
            else if c == 'e' { Some(Action::OpenErrors) }
            else if c == 't' { Some(Action::OpenThemePicker) }
            else if c == '>' { Some(Action::GrowLeftPane) }
            else if c == '<' { Some(Action::ShrinkLeftPane) }
            else if c == '=' { Some(Action::ResetSplit) }
            else if c == 'K' && shift { Some(Action::RequestKillSession) }
            else if c == 'x' { Some(Action::RequestCloseSession) }
            else if c == 'L' && shift { Some(Action::CopyLogPath) }
            else if c == 'r' { Some(Action::RunHighlighted { force_new: true }) }
            else { None }
        } else {
            if c == 'o' { Some(Action::FocusNextSession) }
            else if c == 'i' { Some(Action::FocusPrevSession) }
            else if c == 'g' { Some(Action::FocusList) }
            else { None }
        },
        KeyCode::Down => Some(Action::CursorDown),
        KeyCode::Up => Some(Action::CursorUp),
        KeyCode::Left => Some(Action::CycleRecipeHistoryPrev),
        KeyCode::Right => Some(Action::CycleRecipeHistoryNext),
        KeyCode::Tab => Some(Action::CycleFocus),
        KeyCode::Enter => Some(Action::RunHighlighted { force_new: shift }),
        KeyCode::Esc => Some(Action::CancelFilter),
        KeyCode::F(n) => if n == 12 { Some(Action::FocusList) } else if n == 1 { Some(Action::OpenHelp) } else { None },
        _ => None,
    }
}

pub open spec fn filter_key(k: KeyEvent) -> Option<Action> {
    match k.code {
        KeyCode::Esc => Some(Action::CancelFilter),
        KeyCode::Enter => Some(Action::CommitFilter),
        KeyCode::Backspace => Some(Action::FilterBackspace),
        KeyCode::Char(c) => Some(Action::FilterChar(c)),
        _ => None,
    }
}

pub open spec fn help_key(k: KeyEvent) -> Option<Action> {
    match k.code {
        KeyCode::Esc => Some(Action::CloseHelp),
        KeyCode::F(n) => if n == 1 { Some(Action::CloseHelp) } else { None },
        KeyCode::Char(c) =>
            if c == 'q' || c == '?' { Some(Action::CloseHelp) }
            else if c == 'j' { Some(Action::HelpScrollDown(1)) }
            else if c == 'k' { Some(Action::HelpScrollUp(1)) }
            else { None },
        KeyCode::Down => Some(Action::HelpScrollDown(1)),
        KeyCode::Up => Some(Action::HelpScrollUp(1)),
        KeyCode::PageDown => Some(Action::HelpScrollDown(10)),
        KeyCode::PageUp => Some(Action::HelpScrollUp(10)),
        KeyCode::Home => Some(Action::HelpScrollHome),
        KeyCode::End => Some(Action::HelpScrollEnd),
        _ => None,
    }
}

pub open spec fn errors_key(k: KeyEvent) -> Option<Action> {
    match k.code {
        KeyCode::Esc => Some(Action::CloseErrors),
        KeyCode::Char(c) => if c == 'q' || c == 'e' { Some(Action::CloseErrors) } else { None },
        _ => None,
    }
}

/// Accepting a confirmation: quitting goes to the event loop, the other
/// confirmations to the reducer.
pub open spec fn accept(on_accept: ConfirmAction) -> Action {
    match on_accept {
        ConfirmAction::QuitKillAll => Action::ConfirmQuit,
        other => Action::Confirm(other),
    }
}

pub open spec fn confirm_key(k: KeyEvent, on_accept: ConfirmAction) -> Option<Action> {
    match k.code {
        KeyCode::Enter => Some(accept(on_accept)),
        KeyCode::Esc => Some(Action::CancelConfirm),
        KeyCode::Char(c) =>
            if c == 'y' || c == 'q' { Some(accept(on_accept)) }
            else if c == 'n' || c == 'c' { Some(Action::CancelConfirm) }
            else { None },
        _ => None,
    }
}

pub open spec fn dropdown_key(k: KeyEvent) -> Option<Action> {
    match k.code {
        KeyCode::Esc => Some(Action::CancelDropdown),
        KeyCode::Enter => Some(Action::SelectDropdown),
        KeyCode::Down => Some(Action::DropdownCursorDown),
        KeyCode::Up => Some(Action::DropdownCursorUp),
        KeyCode::Backspace => Some(Action::DropdownBackspace),
        KeyCode::Char(c) =>
            if c == 'j' { Some(Action::DropdownCursorDown) }
            else if c == 'k' { Some(Action::DropdownCursorUp) }
            else { Some(Action::DropdownChar(c)) },
        _ => None,
    }
}

pub open spec fn param_key(k: KeyEvent) -> Option<Action> {
    match k.code {
        KeyCode::Esc => Some(Action::CancelParam),
        KeyCode::Tab => Some(Action::ParamNext),
        KeyCode::Enter => Some(Action::ParamCommit),
        KeyCode::Backspace => Some(Action::ParamBackspace),
        KeyCode::Char(c) => Some(Action::ParamChar(c)),
        _ => None,
    }
}

pub open spec fn picker_key(k: KeyEvent) -> Option<Action> {
    match k.code {
        KeyCode::Esc => Some(Action::PickerCancel),
        KeyCode::Enter => Some(Action::PickerConfirm),
        KeyCode::Down => Some(Action::PickerMove(1isize)),
        KeyCode::Up => Some(Action::PickerMove(-1isize)),
        KeyCode::Char(c) =>
            if c == 'j' { Some(Action::PickerMove(1isize)) }
            else if c == 'k' { Some(Action::PickerMove(-1isize)) }
            else if c == 'q' { Some(Action::PickerCancel) }
            else { None },
        _ => None,
    }
}

/// The action a terminal event stands for in the given mode.
pub open spec fn keymap(evt: InputEvent, mode: ModeView) -> Option<Action> {
    match evt {
        InputEvent::Key(k) => match mode {
            ModeView::Normal => normal_key(k),
            ModeView::FilterInput => filter_key(k),
            ModeView::Help { .. } => help_key(k),
            ModeView::Confirm { on_accept, .. } => confirm_key(k, on_accept),
            ModeView::Dropdown { .. } => dropdown_key(k),
            ModeView::ParamInput { .. } => param_key(k),
            ModeView::ErrorsList => errors_key(k),
            ModeView::ThemePicker { .. } => picker_key(k),
        },
        _ => None,
    }
}

fn normal_mode(k: &KeyEvent) -> (r: Option<Action>)
    ensures
        r == normal_key(*k),
{
    let ctrl = k.mods.ctrl;
    let shift = k.mods.shift;
    match k.code {
        KeyCode::Char(c) => if !ctrl {
            if c == 'q' { Some(Action::RequestQuit) }
            else if c == 'j' { Some(Action::CursorDown) }
            else if c == 'k' { Some(Action::CursorUp) }
            else if c == 'h' { Some(Action::CycleRecipeHistoryPrev) }
            else if c == 'l' { Some(Action::CycleRecipeHistoryNext) }
            else if c == '/' { Some(Action::EnterFilter) }
            else if c == 'd' { Some(Action::OpenDropdown) }
            else if c == '?' { Some(Action::OpenHelp) }
            else if c == 'e' { Some(Action::OpenErrors) }
            else if c == 't' { Some(Action::OpenThemePicker) }
            else if c == '>' { Some(Action::GrowLeftPane) }
            else if c == '<' { Some(Action::ShrinkLeftPane) }
            else if c == '=' { Some(Action::ResetSplit) }
            else if c == 'K' && shift { Some(Action::RequestKillSession) }
            else if c == 'x' { Some(Action::RequestCloseSession) }
            else if c == 'L' && shift { Some(Action::CopyLogPath) }
            else if c == 'r' { Some(Action::RunHighlighted { force_new: true }) }
            else { None }
        } else {
            if c == 'o' { Some(Action::FocusNextSession) }
            else if c == 'i' { Some(Action::FocusPrevSession) }
            else if c == 'g' { Some(Action::FocusList) }
            else { None }
        },
        KeyCode::Down => Some(Action::CursorDown),
        KeyCode::Up => Some(Action::CursorUp),
        KeyCode::Left => Some(Action::CycleRecipeHistoryPrev),
        KeyCode::Right => Some(Action::CycleRecipeHistoryNext),
        KeyCode::Tab => Some(Action::CycleFocus),
        KeyCode::Enter => Some(Action::RunHighlighted { force_new: shift }),
        KeyCode::Esc => Some(Action::CancelFilter),
        KeyCode::F(n) => if n == 12 { Some(Action::FocusList) } else if n == 1 { Some(Action::OpenHelp) } else { None },
        _ => None,
    }
}

fn accept_action(on_accept: ConfirmAction) -> (r: Action)
    ensures
        r == accept(on_accept),
{
    match on_accept {
        ConfirmAction::QuitKillAll => Action::ConfirmQuit,
        other => Action::Confirm(other),
    }
}

/// In the recipe list the letters `h` / `l` / `j` / `k` (without Ctrl) do
/// what the arrows ← / → / ↓ / ↑ do, whatever modifiers either is pressed
/// with: step back / forward through the recipe's runs, move the cursor
/// down / up.
pub proof fn law_letter_keys_match_arrows(m1: KeyMods, m2: KeyMods)
    requires
        !m1.ctrl,
    ensures
        keymap(InputEvent::Key(KeyEvent { code: KeyCode::Char('h'), mods: m1 }), ModeView::Normal)
            == keymap(InputEvent::Key(KeyEvent { code: KeyCode::Left, mods: m2 }), ModeView::Normal),
        keymap(InputEvent::Key(KeyEvent { code: KeyCode::Char('l'), mods: m1 }), ModeView::Normal)
            == keymap(InputEvent::Key(KeyEvent { code: KeyCode::Right, mods: m2 }), ModeView::Normal),
        keymap(InputEvent::Key(KeyEvent { code: KeyCode::Char('j'), mods: m1 }), ModeView::Normal)
            == keymap(InputEvent::Key(KeyEvent { code: KeyCode::Down, mods: m2 }), ModeView::Normal),
        keymap(InputEvent::Key(KeyEvent { code: KeyCode::Char('k'), mods: m1 }), ModeView::Normal)
            == keymap(InputEvent::Key(KeyEvent { code: KeyCode::Up, mods: m2 }), ModeView::Normal),
        keymap(InputEvent::Key(KeyEvent { code: KeyCode::Left, mods: m2 }), ModeView::Normal)
            == Some(Action::CycleRecipeHistoryPrev),
        keymap(InputEvent::Key(KeyEvent { code: KeyCode::Right, mods: m2 }), ModeView::Normal)
            == Some(Action::CycleRecipeHistoryNext),
        keymap(InputEvent::Key(KeyEvent { code: KeyCode::Down, mods: m2 }), ModeView::Normal)
            == Some(Action::CursorDown),
        keymap(InputEvent::Key(KeyEvent { code: KeyCode::Up, mods: m2 }), ModeView::Normal)
            == Some(Action::CursorUp),
{
}

/// The recipe list's keys, as the keybinding table gives them: `q` quit,
/// `/` filter, `d` justfile switcher, `?` / F1 help, `e` load errors, `t`
/// theme picker, `x` close session, `r` and Shift+Enter always a new run,
/// Enter run, `>` `<` `=` pane width, Tab focus, F12 and Ctrl+g back to the
/// list, Esc clear the filter, Ctrl+o / Ctrl+i next / previous unread
/// session. `m` is any modifiers without Ctrl, `c` any with Ctrl.
pub proof fn law_list_keys(m: KeyMods, c: KeyMods)
    requires
        !m.ctrl,
        c.ctrl,
    ensures
        keymap(InputEvent::Key(KeyEvent { code: KeyCode::Char('q'), mods: m }), ModeView::Normal) == Some(Action::RequestQuit),
        keymap(InputEvent::Key(KeyEvent { code: KeyCode::Char('/'), mods: m }), ModeView::Normal) == Some(Action::EnterFilter),
        keymap(InputEvent::Key(KeyEvent { code: KeyCode::Char('d'), mods: m }), ModeView::Normal) == Some(Action::OpenDropdown),
        keymap(InputEvent::Key(KeyEvent { code: KeyCode::Char('?'), mods: m }), ModeView::Normal) == Some(Action::OpenHelp),
        keymap(InputEvent::Key(KeyEvent { code: KeyCode::Char('e'), mods: m }), ModeView::Normal) == Some(Action::OpenErrors),
        keymap(InputEvent::Key(KeyEvent { code: KeyCode::Char('t'), mods: m }), ModeView::Normal) == Some(Action::OpenThemePicker),
        keymap(InputEvent::Key(KeyEvent { code: KeyCode::Char('x'), mods: m }), ModeView::Normal) == Some(Action::RequestCloseSession),
        keymap(InputEvent::Key(KeyEvent { code: KeyCode::Char('r'), mods: m }), ModeView::Normal) == Some(Action::RunHighlighted { force_new: true }),
        keymap(InputEvent::Key(KeyEvent { code: KeyCode::Char('>'), mods: m }), ModeView::Normal) == Some(Action::GrowLeftPane),
        keymap(InputEvent::Key(KeyEvent { code: KeyCode::Char('<'), mods: m }), ModeView::Normal) == Some(Action::ShrinkLeftPane),
        keymap(InputEvent::Key(KeyEvent { code: KeyCode::Char('='), mods: m }), ModeView::Normal) == Some(Action::ResetSplit),
        keymap(InputEvent::Key(KeyEvent { code: KeyCode::Enter, mods: m }), ModeView::Normal) == Some(Action::RunHighlighted { force_new: m.shift }),
        keymap(InputEvent::Key(KeyEvent { code: KeyCode::Tab, mods: m }), ModeView::Normal) == Some(Action::CycleFocus),
        keymap(InputEvent::Key(KeyEvent { code: KeyCode::F(1), mods: m }), ModeView::Normal) == Some(Action::OpenHelp),
        keymap(InputEvent::Key(KeyEvent { code: KeyCode::F(12), mods: m }), ModeView::Normal) == Some(Action::FocusList),
        keymap(InputEvent::Key(KeyEvent { code: KeyCode::Esc, mods: m }), ModeView::Normal) == Some(Action::CancelFilter),
        keymap(InputEvent::Key(KeyEvent { code: KeyCode::Char('o'), mods: c }), ModeView::Normal) == Some(Action::FocusNextSession),
        keymap(InputEvent::Key(KeyEvent { code: KeyCode::Char('i'), mods: c }), ModeView::Normal) == Some(Action::FocusPrevSession),
        keymap(InputEvent::Key(KeyEvent { code: KeyCode::Char('g'), mods: c }), ModeView::Normal) == Some(Action::FocusList),
{
}

/// The action a terminal event stands for in the current mode, if any.
pub fn handle_event(evt: &InputEvent, mode: &Mode) -> (r: Option<Action>)
    ensures
        r == keymap(*evt, mode@),
{
    let k = match evt {
        InputEvent::Key(k) => k,
        _ => {
            return None;
        },
    };
    match mode {
        Mode::Normal => normal_mode(k),
        Mode::FilterInput => match k.code {
            KeyCode::Esc => Some(Action::CancelFilter),
            KeyCode::Enter => Some(Action::CommitFilter),
            KeyCode::Backspace => Some(Action::FilterBackspace),
            KeyCode::Char(c) => Some(Action::FilterChar(c)),
            _ => None,
        },
        Mode::Help { .. } => match k.code {
            KeyCode::Esc => Some(Action::CloseHelp),
            KeyCode::F(n) => if n == 1 { Some(Action::CloseHelp) } else { None },
            KeyCode::Char(c) =>
                if c == 'q' || c == '?' { Some(Action::CloseHelp) }
                else if c == 'j' { Some(Action::HelpScrollDown(1)) }
                else if c == 'k' { Some(Action::HelpScrollUp(1)) }
                else { None },
            KeyCode::Down => Some(Action::HelpScrollDown(1)),
            KeyCode::Up => Some(Action::HelpScrollUp(1)),
            KeyCode::PageDown => Some(Action::HelpScrollDown(10)),
            KeyCode::PageUp => Some(Action::HelpScrollUp(10)),
            KeyCode::Home => Some(Action::HelpScrollHome),
            KeyCode::End => Some(Action::HelpScrollEnd),
            _ => None,
        },
        Mode::Confirm { on_accept, .. } => match k.code {
            KeyCode::Enter => Some(accept_action(*on_accept)),
            KeyCode::Esc => Some(Action::CancelConfirm),
            KeyCode::Char(c) =>
                if c == 'y' || c == 'q' { Some(accept_action(*on_accept)) }
                else if c == 'n' || c == 'c' { Some(Action::CancelConfirm) }
                else { None },
            _ => None,
        },
        Mode::Dropdown { .. } => match k.code {
            KeyCode::Esc => Some(Action::CancelDropdown),
            KeyCode::Enter => Some(Action::SelectDropdown),
            KeyCode::Down => Some(Action::DropdownCursorDown),
            KeyCode::Up => Some(Action::DropdownCursorUp),
            KeyCode::Backspace => Some(Action::DropdownBackspace),
            KeyCode::Char(c) =>
                if c == 'j' { Some(Action::DropdownCursorDown) }
                else if c == 'k' { Some(Action::DropdownCursorUp) }
                else { Some(Action::DropdownChar(c)) },
            _ => None,
        },
        Mode::ParamInput { .. } => match k.code {
            KeyCode::Esc => Some(Action::CancelParam),
            KeyCode::Tab => Some(Action::ParamNext),
            KeyCode::Enter => Some(Action::ParamCommit),
            KeyCode::Backspace => Some(Action::ParamBackspace),
            KeyCode::Char(c) => Some(Action::ParamChar(c)),
            _ => None,
        },
        Mode::ErrorsList => match k.code {
            KeyCode::Esc => Some(Action::CloseErrors),
            KeyCode::Char(c) => if c == 'q' || c == 'e' { Some(Action::CloseErrors) } else { None },
            _ => None,
        },
        Mode::ThemePicker { .. } => match k.code {
            KeyCode::Esc => Some(Action::PickerCancel),
            KeyCode::Enter => Some(Action::PickerConfirm),
            KeyCode::Down => Some(Action::PickerMove(1isize)),
            KeyCode::Up => Some(Action::PickerMove(-1isize)),
            KeyCode::Char(c) =>
                if c == 'j' { Some(Action::PickerMove(1isize)) }
                else if c == 'k' { Some(Action::PickerMove(-1isize)) }
                else if c == 'q' { Some(Action::PickerCancel) }
                else { None },
            _ => None,
        },
    }
}

/// What a key does while a session pane has the focus.
#[derive(Debug, PartialEq, Eq)]
pub enum SessionKey {
    /// Hand the focus back to the recipe list.
    FocusList,
    /// Scroll the session output back by ten lines.
    ScrollUp,
    /// Scroll the session output forward by ten lines.
    ScrollDown,
    /// Jump to the top of the scrollback.
    ScrollTop,
    /// Jump to the bottom of the scrollback.
    ScrollBottom,
    /// Send these bytes to the session's shell.
    Forward(Vec<u8>),
    /// Not a session key: look it up in the keymap.
    Pass,
}

/// What `route_session_key` decides, with the forwarded bytes as a sequence.
pub enum SessionKeyView {
    FocusList,
    ScrollUp,
    ScrollDown,
    ScrollTop,
    ScrollBottom,
    Forward(Seq<u8>),
    Pass,
}

impl View for SessionKey {
    type V = SessionKeyView;

    open spec fn view(&self) -> SessionKeyView {
        match self {
            SessionKey::FocusList => SessionKeyView::FocusList,
            SessionKey::ScrollUp => SessionKeyView::ScrollUp,
            SessionKey::ScrollDown => SessionKeyView::ScrollDown,
            SessionKey::ScrollTop => SessionKeyView::ScrollTop,
            SessionKey::ScrollBottom => SessionKeyView::ScrollBottom,
            SessionKey::Forward(b) => SessionKeyView::Forward(b@),
            SessionKey::Pass => SessionKeyView::Pass,
        }
    }
}

/// With the session pane focused in normal mode: F12 or Ctrl+g returns to
/// the list, PgUp/PgDn/Home/End scroll the focused session's output (when it
/// has one), and every other key that sends bytes goes to the shell.
pub open spec fn session_key(focus: Focus, mode: ModeView, has_screen: bool, k: KeyEvent) -> SessionKeyView {
    if focus == Focus::Session && mode == ModeView::Normal {
        if k.code == KeyCode::F(12) || (k.code == KeyCode::Char('g') && k.mods.ctrl) {
            SessionKeyView::FocusList
        } else if has_screen && k.code == KeyCode::PageUp {
            SessionKeyView::ScrollUp
        } else if has_screen && k.code == KeyCode::PageDown {
            SessionKeyView::ScrollDown
        } else if has_screen && k.code == KeyCode::Home {
            SessionKeyView::ScrollTop
        } else if has_screen && k.code == KeyCode::End {
            SessionKeyView::ScrollBottom
        } else if key_bytes(k).len() > 0 {
            SessionKeyView::Forward(key_bytes(k))
        } else {
            SessionKeyView::Pass
        }
    } else {
        SessionKeyView::Pass
    }
}

/// Routes a key press while a session may have the focus.
pub fn route_session_key(focus: Focus, mode: &Mode, has_screen: bool, k: &KeyEvent) -> (r: SessionKey)
    ensures
        r@ == session_key(focus, mode@, has_screen, *k),
{
    let normal = match mode {
        Mode::Normal => true,
        _ => false,
    };
    if !(focus == Focus::Session && normal) {
        return SessionKey::Pass;
    }
    let is_f12 = match k.code {
        KeyCode::F(n) => n == 12,
        _ => false,
    };
    let is_ctrl_g = match k.code {
        KeyCode::Char(c) => c == 'g' && k.mods.ctrl,
        _ => false,
    };
    if is_f12 || is_ctrl_g {
        return SessionKey::FocusList;
    }
    if has_screen {
        match k.code {
            KeyCode::PageUp => {
                return SessionKey::ScrollUp;
            },
            KeyCode::PageDown => {
                return SessionKey::ScrollDown;
            },
            KeyCode::Home => {
                return SessionKey::ScrollTop;
            },
            KeyCode::End => {
                return SessionKey::ScrollBottom;
            },
            _ => {},
        }
    }
    let bytes = encode_key(k);
    if bytes.len() > 0 {
        SessionKey::Forward(bytes)
    } else {
        SessionKey::Pass
    }
}

/// The scrollback offset after a scroll key: ten lines further back or
/// forward (saturating), the top (a large offset the emulator clamps), or
/// the bottom.
pub fn scrollback_after(cur: usize, key: &SessionKey) -> (r: usize)
    ensures
        r == match key@ {
            SessionKeyView::ScrollUp => if cur + 10 > usize::MAX { usize::MAX } else { (cur + 10) as usize },
            SessionKeyView::ScrollDown => if cur < 10 { 0 } else { (cur - 10) as usize },
            SessionKeyView::ScrollTop => (usize::MAX / 2) as usize,
            SessionKeyView::ScrollBottom => 0usize,
            _ => cur,
        },
{
    match key {
        SessionKey::ScrollUp => if cur > usize::MAX - 10 { usize::MAX } else { cur + 10 },
        SessionKey::ScrollDown => if cur < 10 { 0 } else { cur - 10 },
        SessionKey::ScrollTop => usize::MAX / 2,
        SessionKey::ScrollBottom => 0,
        _ => cur,
    }
}

} // verus!
