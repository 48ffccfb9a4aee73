//! Colour themes: fourteen semantic colour slots used across the UI,
//! read from theme files (built in, or under the user's themes directory).
pub mod color;
pub mod registry;

use vstd::prelude::*;
use crate::theme::color::{Color, color_of, color_text_ok, parse_color_spec};

verus! {

pub const DEFAULT_THEME_NAME: &'static str = "tokyo-night";

pub struct Theme {
    pub name: String,
    pub bg: Color,
    pub fg: Color,
    pub dim: Color,
    pub accent: Color,
    pub highlight: Color,
    pub selected_fg: Color,
    pub success: Color,
    pub warn: Color,
    pub error: Color,
    pub running: Color,
    pub info: Color,
    pub badge_bg: Color,
    pub badge_fg: Color,
}

/// The slots of a theme file, as text.
pub struct ThemeFile {
    pub name: String,
    pub bg: String,
    pub fg: String,
    pub dim: String,
    pub accent: String,
    pub highlight: String,
    pub selected_fg: String,
    pub success: String,
    pub warn: String,
    pub error: String,
    pub running: String,
    pub info: String,
    pub badge_bg: String,
    pub badge_fg: String,
}

pub enum ThemeError {
    /// The file is not a theme file (the reader's message).
    Parse(String),
    /// A slot holds no colour (the slot's text).
    Color(String),
}

/// Reads one colour; the error carries the text as written.
pub fn parse_color(s: &str) -> (r: Result<Color, ThemeError>)
    requires
        color_text_ok(s@),
    ensures
        match r {
            Ok(c) => parse_color_spec(s@) == Some(c),
            Err(e) => parse_color_spec(s@) is None && (e matches ThemeError::Color(t) && t@ == s@),
        },
{
    match color_of(s) {
        Some(c) => Ok(c),
        None => Err(ThemeError::Color(crate::discovery::parse::text(s))),
    }
}

/// The slot texts of a theme file, in the order they are read.
pub open spec fn slots(f: &ThemeFile) -> Seq<Seq<char>> {
    seq![f.bg@, f.fg@, f.dim@, f.accent@, f.highlight@, f.selected_fg@, f.success@, f.warn@,
        f.error@, f.running@, f.info@, f.badge_bg@, f.badge_fg@]
}

/// Every slot can be read without cutting a character in two.
pub open spec fn theme_file_ok(f: &ThemeFile) -> bool {
    forall|i: int| 0 <= i < slots(f).len() ==> color_text_ok(#[trigger] slots(f)[i])
}

/// The first slot that holds no colour.
pub open spec fn first_bad_slot(f: &ThemeFile) -> Option<int> {
    if exists|i: int| 0 <= i < 13 && parse_color_spec(#[trigger] slots(f)[i]) is None {
        Some(choose|i: int| 0 <= i < 13 && parse_color_spec(#[trigger] slots(f)[i]) is None
            && forall|k: int| 0 <= k < i ==> parse_color_spec(slots(f)[k]) is Some)
    } else {
        None
    }
}

pub open spec fn slot_color(f: &ThemeFile, i: int) -> Color {
    parse_color_spec(slots(f)[i]).unwrap()
}

/// The theme a file describes: its name and each slot's colour; the first
/// slot that holds no colour is the error.
pub fn theme_from_file(f: &ThemeFile) -> (r: Result<Theme, ThemeError>)
    requires
        theme_file_ok(f),
    ensures
        match r {
            Ok(t) => first_bad_slot(f) is None && t.name@ == f.name@
                && t.bg == slot_color(f, 0) && t.fg == slot_color(f, 1) && t.dim == slot_color(f, 2)
                && t.accent == slot_color(f, 3) && t.highlight == slot_color(f, 4)
                && t.selected_fg == slot_color(f, 5) && t.success == slot_color(f, 6)
                && t.warn == slot_color(f, 7) && t.error == slot_color(f, 8)
                && t.running == slot_color(f, 9) && t.info == slot_color(f, 10)
                && t.badge_bg == slot_color(f, 11) && t.badge_fg == slot_color(f, 12),
            Err(e) => (first_bad_slot(f) matches Some(i) && (e matches ThemeError::Color(s) && s@ == slots(f)[i])),
        },
{
    let ghost sl = slots(f);
    assert(color_text_ok(sl[0]) && color_text_ok(sl[1]) && color_text_ok(sl[2]) && color_text_ok(sl[3])
        && color_text_ok(sl[4]) && color_text_ok(sl[5]) && color_text_ok(sl[6]) && color_text_ok(sl[7])
        && color_text_ok(sl[8]) && color_text_ok(sl[9]) && color_text_ok(sl[10]) && color_text_ok(sl[11])
        && color_text_ok(sl[12]));
    let r = theme_slots(f);
    r
}

fn theme_slots(f: &ThemeFile) -> (r: Result<Theme, ThemeError>)
    requires
        forall|i: int| 0 <= i < 13 ==> color_text_ok(#[trigger] slots(f)[i]),
    ensures
        match r {
            Ok(t) => (forall|i: int| 0 <= i < 13 ==> parse_color_spec(#[trigger] slots(f)[i]) is Some)
                && t.name@ == f.name@
                && t.bg == slot_color(f, 0) && t.fg == slot_color(f, 1) && t.dim == slot_color(f, 2)
                && t.accent == slot_color(f, 3) && t.highlight == slot_color(f, 4)
                && t.selected_fg == slot_color(f, 5) && t.success == slot_color(f, 6)
                && t.warn == slot_color(f, 7) && t.error == slot_color(f, 8)
                && t.running == slot_color(f, 9) && t.info == slot_color(f, 10)
                && t.badge_bg == slot_color(f, 11) && t.badge_fg == slot_color(f, 12),
            Err(e) => (first_bad_slot(f) matches Some(i) && (e matches ThemeError::Color(s) && s@ == slots(f)[i])),
        },
{
    let ghost sl = slots(f);
    let texts: [&String; 13] = [&f.bg, &f.fg, &f.dim, &f.accent, &f.highlight, &f.selected_fg,
        &f.success, &f.warn, &f.error, &f.running, &f.info, &f.badge_bg, &f.badge_fg];
    let mut cs: Vec<Color> = Vec::new();
    let mut i: usize = 0;
    while i < 13
        invariant
            i <= 13,
            sl == slots(f),
            forall|k: int| 0 <= k < 13 ==> color_text_ok(#[trigger] sl[k]),
            forall|k: int| 0 <= k < 13 ==> (#[trigger] texts@[k])@ == sl[k],
            cs@.len() == i,
            forall|k: int| 0 <= k < i ==> parse_color_spec(#[trigger] sl[k]) == Some(cs@[k]),
        decreases 13 - i,
    {
        match parse_color(texts[i].as_str()) {
            Ok(c) => {
                cs.push(c);
            },
            Err(e) => {
                proof {
                    let c = choose|j: int| 0 <= j < 13 && parse_color_spec(#[trigger] sl[j]) is None
                        && forall|k: int| 0 <= k < j ==> parse_color_spec(sl[k]) is Some;
                    assert(0 <= i < 13 && parse_color_spec(sl[i as int]) is None);
                    if c < i { assert(parse_color_spec(sl[c]) is Some); }
                    if i < c { assert(parse_color_spec(sl[i as int]) is Some); }
                }
                return Err(e);
            },
        }
        i = i + 1;
    }
    Ok(Theme {
        name: f.name.clone(),
        bg: cs[0], fg: cs[1], dim: cs[2], accent: cs[3], highlight: cs[4], selected_fg: cs[5],
        success: cs[6], warn: cs[7], error: cs[8], running: cs[9], info: cs[10], badge_bg: cs[11],
        badge_fg: cs[12],
    })
}

} // verus!
