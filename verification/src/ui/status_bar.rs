//! The key hints along the bottom of the screen.
use vstd::prelude::*;
use crate::app::state::{App, AppView};
use crate::app::types::{Focus, Mode, ModeView};
use crate::text::{dec, push_decimal, push_str};

verus! {

/// A piece of the hint line: a key, its description, a separator, or a
/// plain space.
pub enum HintPart {
    Key(String),
    Desc(String),
    Sep,
    Space,
}

pub enum HintView {
    Key(Seq<char>),
    Desc(Seq<char>),
    Sep,
    Space,
}

impl View for HintPart {
    type V = HintView;

    open spec fn view(&self) -> HintView {
        match self {
            HintPart::Key(s) => HintView::Key(s@),
            HintPart::Desc(s) => HintView::Desc(s@),
            HintPart::Sep => HintView::Sep,
            HintPart::Space => HintView::Space,
        }
    }
}

pub open spec fn kd(k: Seq<char>, d: Seq<char>) -> Seq<HintView> {
    seq![HintView::Key(k), HintView::Space, HintView::Desc(d)]
}

/// The name and value of the parameter being edited.
pub open spec fn param_hint_name(s: AppView, recipe_idx: usize, cursor: usize) -> Seq<char> {
    if s.active_justfile < s.justfiles.len()
        && recipe_idx < s.justfiles[s.active_justfile as int].recipes.len()
        && cursor < s.justfiles[s.active_justfile as int].recipes[recipe_idx as int].params.len() {
        s.justfiles[s.active_justfile as int].recipes[recipe_idx as int].params[cursor as int].name
    } else {
        Seq::empty()
    }
}

/// The hints for the current mode (and, in normal mode, focus).
pub open spec fn hints_spec(s: AppView) -> Seq<HintView> {
    match s.mode {
        ModeView::Normal => if s.focus == Focus::Session {
            kd("PgUp/PgDn"@, "scroll"@) + seq![HintView::Sep] + kd("F12"@, "list"@) + seq![HintView::Sep]
                + kd("K"@, "kill"@) + seq![HintView::Sep] + kd("x"@, "close"@) + seq![HintView::Sep] + kd("?"@, "help"@)
        } else {
            kd("⏎"@, "run"@) + seq![HintView::Sep] + kd("/"@, "filter"@) + seq![HintView::Sep]
                + kd("t"@, "theme"@) + seq![HintView::Sep] + kd("?"@, "help"@) + seq![HintView::Sep] + kd("q"@, "quit"@)
        },
        ModeView::FilterInput => seq![HintView::Desc("/"@), HintView::Key(s.filter + "_"@), HintView::Sep]
            + kd("Esc"@, "cancel"@) + seq![HintView::Sep] + kd("⏎"@, "apply"@),
        ModeView::ParamInput { recipe_idx, values, cursor } => {
            let val: Seq<char> = if cursor < values.len() { values[cursor as int] } else { Seq::empty() };
            seq![
                HintView::Desc("["@ + dec((cursor + 1) as nat) + "/"@ + dec(if values.len() > 1 { values.len() } else { 1 }) + "] "@),
                HintView::Key(param_hint_name(s, recipe_idx, cursor) + " = "@ + val + "_"@),
                HintView::Sep,
            ] + kd("⏎"@, "next"@) + seq![HintView::Sep] + kd("Esc"@, "cancel"@)
        },
        ModeView::ThemePicker { .. } => kd("j/k"@, "select"@) + seq![HintView::Sep] + kd("⏎"@, "apply & save"@)
            + seq![HintView::Sep] + kd("Esc"@, "revert"@),
        ModeView::Help { .. } => kd("Esc / q"@, "close"@),
        ModeView::Confirm { prompt, .. } => seq![HintView::Desc(prompt), HintView::Space] + kd("y"@, "yes"@)
            + seq![HintView::Sep] + kd("n"@, "no"@),
        ModeView::Dropdown { filter, .. } => seq![HintView::Desc("justfile: /"@), HintView::Key(filter + "_"@), HintView::Sep]
            + kd("⏎"@, "pick"@) + seq![HintView::Sep] + kd("Esc"@, "cancel"@),
        ModeView::ErrorsList => kd("Esc / q / e"@, "close"@),
    }
}

fn text(s: &str) -> (r: String)
    ensures
        r@ == s@,
{
    crate::discovery::parse::text(s)
}

fn push_kd(out: &mut Vec<HintPart>, k: &str, d: &str)
    ensures
        final(out)@.map_values(|h: HintPart| h@) == old(out)@.map_values(|h: HintPart| h@) + kd(k@, d@),
{
    let ghost before = out@.map_values(|h: HintPart| h@);
    out.push(HintPart::Key(text(k)));
    out.push(HintPart::Space);
    out.push(HintPart::Desc(text(d)));
    assert(out@.map_values(|h: HintPart| h@) =~= before + kd(k@, d@));
}

fn push_sep(out: &mut Vec<HintPart>)
    ensures
        final(out)@.map_values(|h: HintPart| h@) == old(out)@.map_values(|h: HintPart| h@) + seq![HintView::Sep],
{
    let ghost before = out@.map_values(|h: HintPart| h@);
    out.push(HintPart::Sep);
    assert(out@.map_values(|h: HintPart| h@) =~= before + seq![HintView::Sep]);
}

fn push_part(out: &mut Vec<HintPart>, p: HintPart)
    ensures
        final(out)@.map_values(|h: HintPart| h@) == old(out)@.map_values(|h: HintPart| h@).push(p@),
{
    let ghost before = out@.map_values(|h: HintPart| h@);
    let ghost pv = p@;
    out.push(p);
    assert(out@.map_values(|h: HintPart| h@) =~= before.push(pv));
}

fn with_underscore(s: &str) -> (r: String)
    ensures
        r@ == s@ + "_"@,
{
    let mut r = text(s);
    push_str(&mut r, "_");
    r
}

fn param_name<'a>(app: &'a App, recipe_idx: usize, cursor: usize) -> (r: &'a str)
    ensures
        r@ == param_hint_name(app@, recipe_idx, cursor),
{
    if app.active_justfile < app.justfiles.len() {
        let jf = &app.justfiles[app.active_justfile];
        if recipe_idx < jf.recipes.len() && cursor < jf.recipes[recipe_idx].params.len() {
            return jf.recipes[recipe_idx].params[cursor].name.as_str();
        }
    }
    proof { reveal_strlit(""); }
    ""
}

/// The hint line for the current mode.
pub fn hints(app: &App) -> (r: Vec<HintPart>)
    requires
        app@.mode matches ModeView::ParamInput { cursor, .. } ==> cursor < usize::MAX,
    ensures
        r@.map_values(|h: HintPart| h@) == hints_spec(app@),
{
    let mut out: Vec<HintPart> = Vec::new();
    assert(out@.map_values(|h: HintPart| h@) =~= Seq::<HintView>::empty());
    match &app.mode {
        Mode::Normal => {
            if app.focus == Focus::Session {
                push_kd(&mut out, "PgUp/PgDn", "scroll");
                push_sep(&mut out);
                push_kd(&mut out, "F12", "list");
                push_sep(&mut out);
                push_kd(&mut out, "K", "kill");
                push_sep(&mut out);
                push_kd(&mut out, "x", "close");
                push_sep(&mut out);
                push_kd(&mut out, "?", "help");
            } else {
                push_kd(&mut out, "⏎", "run");
                push_sep(&mut out);
                push_kd(&mut out, "/", "filter");
                push_sep(&mut out);
                push_kd(&mut out, "t", "theme");
                push_sep(&mut out);
                push_kd(&mut out, "?", "help");
                push_sep(&mut out);
                push_kd(&mut out, "q", "quit");
            }
        },
        Mode::FilterInput => {
            push_part(&mut out, HintPart::Desc(text("/")));
            push_part(&mut out, HintPart::Key(with_underscore(app.filter.as_str())));
            push_sep(&mut out);
            push_kd(&mut out, "Esc", "cancel");
            push_sep(&mut out);
            push_kd(&mut out, "⏎", "apply");
        },
        Mode::ParamInput { recipe_idx, values, cursor } => {
            let mut pos = text("[");
            push_decimal(&mut pos, (*cursor + 1) as u64);
            push_str(&mut pos, "/");
            push_decimal(&mut pos, if values.len() > 1 { values.len() as u64 } else { 1 });
            push_str(&mut pos, "] ");
            push_part(&mut out, HintPart::Desc(pos));
            let mut kv = text(param_name(app, *recipe_idx, *cursor));
            push_str(&mut kv, " = ");
            if *cursor < values.len() {
                push_str(&mut kv, values[*cursor].as_str());
            }
            push_str(&mut kv, "_");
            push_part(&mut out, HintPart::Key(kv));
            push_sep(&mut out);
            push_kd(&mut out, "⏎", "next");
            push_sep(&mut out);
            push_kd(&mut out, "Esc", "cancel");
        },
        Mode::ThemePicker { .. } => {
            push_kd(&mut out, "j/k", "select");
            push_sep(&mut out);
            push_kd(&mut out, "⏎", "apply & save");
            push_sep(&mut out);
            push_kd(&mut out, "Esc", "revert");
        },
        Mode::Help { .. } => push_kd(&mut out, "Esc / q", "close"),
        Mode::Confirm { prompt, .. } => {
            push_part(&mut out, HintPart::Desc(prompt.clone()));
            push_part(&mut out, HintPart::Space);
            push_kd(&mut out, "y", "yes");
            push_sep(&mut out);
            push_kd(&mut out, "n", "no");
        },
        Mode::Dropdown { filter, .. } => {
            push_part(&mut out, HintPart::Desc(text("justfile: /")));
            push_part(&mut out, HintPart::Key(with_underscore(filter.as_str())));
            push_sep(&mut out);
            push_kd(&mut out, "⏎", "pick");
            push_sep(&mut out);
            push_kd(&mut out, "Esc", "cancel");
        },
        Mode::ErrorsList => push_kd(&mut out, "Esc / q / e", "close"),
    }
    assert(out@.map_values(|h: HintPart| h@) =~= hints_spec(app@));
    out
}

/// Status messages starting with `err` or `Error` are shown as errors.
pub open spec fn is_error_message(msg: Seq<char>) -> bool {
    (msg.len() >= 3 && msg.take(3) == "err"@) || (msg.len() >= 5 && msg.take(5) == "Error"@)
}

pub fn message_is_error(msg: &str) -> (r: bool)
    ensures
        r == is_error_message(msg@),
{
    proof {
        reveal_strlit("err");
        reveal_strlit("Error");
    }
    let cs = crate::text::chars_of(msg);
    let a = cs.len() >= 3 && cs[0] == 'e' && cs[1] == 'r' && cs[2] == 'r';
    let b = cs.len() >= 5 && cs[0] == 'E' && cs[1] == 'r' && cs[2] == 'r' && cs[3] == 'o' && cs[4] == 'r';
    assert(a == (msg@.len() >= 3 && msg@.take(3) == "err"@)) by {
        if msg@.len() >= 3 && msg@.take(3) == "err"@ { assert(msg@.take(3)[0] == 'e' && msg@.take(3)[1] == 'r' && msg@.take(3)[2] == 'r'); }
        if a { assert(msg@.take(3) =~= "err"@); }
    }
    assert(b == (msg@.len() >= 5 && msg@.take(5) == "Error"@)) by {
        if msg@.len() >= 5 && msg@.take(5) == "Error"@ {
            assert(msg@.take(5)[0] == 'E' && msg@.take(5)[1] == 'r' && msg@.take(5)[2] == 'r' && msg@.take(5)[3] == 'o' && msg@.take(5)[4] == 'r');
        }
        if b { assert(msg@.take(5) =~= "Error"@); }
    }
    a || b
}

} // verus!
