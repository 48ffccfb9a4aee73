//! Which help section matches the current context.
use vstd::prelude::*;
use crate::app::types::{Focus, Mode, ModeView, SectionId};
use crate::app::state::App;

verus! {

pub open spec fn section_for(mode: ModeView, focus: Focus) -> SectionId {
    match mode {
        ModeView::Help { .. } => SectionId::HelpItself,
        ModeView::FilterInput => SectionId::Filter,
        ModeView::Dropdown { .. } => SectionId::Dropdown,
        ModeView::ParamInput { .. } => SectionId::Param,
        ModeView::Confirm { .. } => SectionId::Confirm,
        ModeView::ErrorsList => SectionId::Errors,
        ModeView::ThemePicker { .. } => SectionId::ListFocus,
        ModeView::Normal => match focus {
            Focus::Session => SectionId::SessionFocus,
            _ => SectionId::ListFocus,
        },
    }
}

pub fn active_section(app: &App) -> (id: SectionId)
    ensures
        id == section_for(app@.mode, app@.focus),
{
    match &app.mode {
        Mode::Help { .. } => SectionId::HelpItself,
        Mode::FilterInput => SectionId::Filter,
        Mode::Dropdown { .. } => SectionId::Dropdown,
        Mode::ParamInput { .. } => SectionId::Param,
        Mode::Confirm { .. } => SectionId::Confirm,
        Mode::ErrorsList => SectionId::Errors,
        Mode::ThemePicker { .. } => SectionId::ListFocus,
        Mode::Normal => match app.focus {
            Focus::Session => SectionId::SessionFocus,
            _ => SectionId::ListFocus,
        },
    }
}

} // verus!
