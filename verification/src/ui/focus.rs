//! Which pane draws as active.
use vstd::prelude::*;
use crate::app::types::Focus;

verus! {

/// The recipe list is the active pane.
pub fn is_list_active(focus: Focus) -> (r: bool)
    ensures
        r == (focus == Focus::List),
{
    match focus {
        Focus::List => true,
        _ => false,
    }
}

/// The right-hand pane (session or preview) is the active pane.
pub fn is_right_active(focus: Focus) -> (r: bool)
    ensures
        r == (focus == Focus::Session),
{
    match focus {
        Focus::Session => true,
        _ => false,
    }
}

} // verus!
