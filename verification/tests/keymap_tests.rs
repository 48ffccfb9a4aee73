use lazyjust::app::action::Action;
use lazyjust::app::types::{ConfirmAction, Focus, Mode};
use lazyjust::input::keymap::{handle_event, route_session_key, scrollback_after, SessionKey};
use lazyjust::input::keys::{encode_key, InputEvent, KeyCode, KeyEvent, KeyMods};

fn key(code: KeyCode) -> KeyEvent {
    KeyEvent { code, mods: KeyMods { ctrl: false, shift: false, alt: false } }
}

fn ctrl(c: char) -> KeyEvent {
    KeyEvent { code: KeyCode::Char(c), mods: KeyMods { ctrl: true, shift: false, alt: false } }
}

#[test]
fn normal_mode_keys() {
    let m = Mode::Normal;
    assert_eq!(handle_event(&InputEvent::Key(key(KeyCode::Char('j'))), &m), Some(Action::CursorDown));
    assert_eq!(handle_event(&InputEvent::Key(key(KeyCode::Char('t'))), &m), Some(Action::OpenThemePicker));
    assert_eq!(handle_event(&InputEvent::Key(key(KeyCode::F(1))), &m), Some(Action::OpenHelp));
    assert_eq!(handle_event(&InputEvent::Key(key(KeyCode::Enter)), &m), Some(Action::RunHighlighted { force_new: false }));
    let shift_enter = KeyEvent { code: KeyCode::Enter, mods: KeyMods { ctrl: false, shift: true, alt: false } };
    assert_eq!(handle_event(&InputEvent::Key(shift_enter), &m), Some(Action::RunHighlighted { force_new: true }));
    assert_eq!(handle_event(&InputEvent::Key(ctrl('o')), &m), Some(Action::FocusNextSession));
    assert_eq!(handle_event(&InputEvent::Key(key(KeyCode::Char('K'))), &m), None);
    assert_eq!(handle_event(&InputEvent::Resize(80, 24), &m), None);
}

#[test]
fn confirm_mode_accepts_what_it_asked() {
    let kill = Mode::Confirm { prompt: "Kill session 1?".to_string(), on_accept: ConfirmAction::KillSession(1) };
    assert_eq!(handle_event(&InputEvent::Key(key(KeyCode::Char('y'))), &kill), Some(Action::Confirm(ConfirmAction::KillSession(1))));
    let quit = Mode::Confirm { prompt: "q".to_string(), on_accept: ConfirmAction::QuitKillAll };
    assert_eq!(handle_event(&InputEvent::Key(key(KeyCode::Enter)), &quit), Some(Action::ConfirmQuit));
    assert_eq!(handle_event(&InputEvent::Key(key(KeyCode::Esc)), &quit), Some(Action::CancelConfirm));
}

#[test]
fn picker_mode_keys() {
    let m = Mode::ThemePicker { original_name: "nord".to_string(), highlighted: 0, names: vec![] };
    assert_eq!(handle_event(&InputEvent::Key(key(KeyCode::Down)), &m), Some(Action::PickerMove(1)));
    assert_eq!(handle_event(&InputEvent::Key(key(KeyCode::Char('k'))), &m), Some(Action::PickerMove(-1)));
    assert_eq!(handle_event(&InputEvent::Key(key(KeyCode::Enter)), &m), Some(Action::PickerConfirm));
    assert_eq!(handle_event(&InputEvent::Key(key(KeyCode::Esc)), &m), Some(Action::PickerCancel));
}

#[test]
fn keys_encode_for_the_shell() {
    assert_eq!(encode_key(&key(KeyCode::Char('a'))), vec![0x61]);
    assert_eq!(encode_key(&key(KeyCode::Char('é'))), "é".as_bytes().to_vec());
    assert_eq!(encode_key(&key(KeyCode::Char('€'))), "€".as_bytes().to_vec());
    assert_eq!(encode_key(&key(KeyCode::Char('😀'))), "😀".as_bytes().to_vec());
    assert_eq!(encode_key(&ctrl('c')), vec![0x03]);
    assert_eq!(encode_key(&ctrl('[')), vec![0x1b]);
    assert_eq!(encode_key(&ctrl('1')), Vec::<u8>::new());
    assert_eq!(encode_key(&key(KeyCode::Up)), vec![0x1b, 0x5b, 0x41]);
    assert_eq!(encode_key(&key(KeyCode::F(5))), Vec::<u8>::new());
}

#[test]
fn session_focus_routes_keys() {
    let m = Mode::Normal;
    assert_eq!(route_session_key(Focus::Session, &m, true, &key(KeyCode::F(12))), SessionKey::FocusList);
    assert_eq!(route_session_key(Focus::Session, &m, true, &ctrl('g')), SessionKey::FocusList);
    assert_eq!(route_session_key(Focus::Session, &m, true, &key(KeyCode::PageUp)), SessionKey::ScrollUp);
    assert_eq!(route_session_key(Focus::Session, &m, false, &key(KeyCode::Home)), SessionKey::Forward(vec![0x1b, 0x5b, 0x48]));
    assert_eq!(route_session_key(Focus::Session, &m, true, &key(KeyCode::Char('x'))), SessionKey::Forward(vec![0x78]));
    assert_eq!(route_session_key(Focus::Session, &m, true, &key(KeyCode::F(1))), SessionKey::Pass);
    assert_eq!(route_session_key(Focus::List, &m, true, &key(KeyCode::Char('x'))), SessionKey::Pass);
    assert_eq!(scrollback_after(5, &SessionKey::ScrollDown), 0);
    assert_eq!(scrollback_after(usize::MAX - 3, &SessionKey::ScrollUp), usize::MAX);
    assert_eq!(scrollback_after(7, &SessionKey::ScrollBottom), 0);
}
