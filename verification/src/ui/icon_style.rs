//! Glyph sets for the recipe list.
use vstd::prelude::*;
use crate::text::{chars_of, eq_ignore_ascii_case, ascii_lower_seq};

verus! {

#[derive(Debug, Clone, Copy, PartialEq, Eq, Structural)]
pub enum IconStyle {
    Round,
    Ascii,
    Blank,
}

/// Per-style glyph set consumed by the list renderer.
pub struct Glyphs {
    pub unselected: &'static str,
    pub running: &'static str,
    pub cursor: &'static str,
}

/// The style named by `s`, compared ASCII case-insensitively.
pub open spec fn parse_icon_style(s: Seq<char>) -> Option<IconStyle> {
    let l = ascii_lower_seq(s);
    if l == seq!['r', 'o', 'u', 'n', 'd'] {
        Some(IconStyle::Round)
    } else if l == seq!['a', 's', 'c', 'i', 'i'] {
        Some(IconStyle::Ascii)
    } else if l == seq!['n', 'o', 'n', 'e'] {
        Some(IconStyle::Blank)
    } else {
        None
    }
}

impl IconStyle {
    /// The (unselected, running, cursor) glyphs of the style.
    pub open spec fn glyphs_spec(self) -> (Seq<char>, Seq<char>, Seq<char>) {
        match self {
            IconStyle::Round => ("○"@, "●"@, "▶"@),
            IconStyle::Ascii => ("o"@, "*"@, ">"@),
            IconStyle::Blank => (""@, ""@, ""@),
        }
    }

    pub fn parse(s: &str) -> (r: Option<IconStyle>)
        ensures
            r == parse_icon_style(s@),
    {
        let cs = chars_of(s);
        let round = vec!['r', 'o', 'u', 'n', 'd'];
        let ascii = vec!['a', 's', 'c', 'i', 'i'];
        let none = vec!['n', 'o', 'n', 'e'];
        assert(round@ == seq!['r', 'o', 'u', 'n', 'd']);
        assert(ascii@ == seq!['a', 's', 'c', 'i', 'i']);
        assert(none@ == seq!['n', 'o', 'n', 'e']);
        assert(ascii_lower_seq(round@) == round@) by { reveal_with_fuel(ascii_lower_seq, 6); }
        assert(ascii_lower_seq(ascii@) == ascii@) by { reveal_with_fuel(ascii_lower_seq, 6); }
        assert(ascii_lower_seq(none@) == none@) by { reveal_with_fuel(ascii_lower_seq, 5); }
        if eq_ignore_ascii_case(&cs, &round) {
            Some(IconStyle::Round)
        } else if eq_ignore_ascii_case(&cs, &ascii) {
            Some(IconStyle::Ascii)
        } else if eq_ignore_ascii_case(&cs, &none) {
            Some(IconStyle::Blank)
        } else {
            None
        }
    }

    pub fn glyphs(self) -> (g: Glyphs)
        ensures
            (g.unselected@, g.running@, g.cursor@) == self.glyphs_spec(),
            self == IconStyle::Round ==> g.unselected@ == "○"@ && g.running@ == "●"@ && g.cursor@ == "▶"@,
            self == IconStyle::Ascii ==> g.unselected@ == "o"@ && g.running@ == "*"@ && g.cursor@ == ">"@,
            self == IconStyle::Blank ==> g.unselected@ == ""@ && g.running@ == ""@ && g.cursor@ == ""@,
    {
        match self {
            IconStyle::Round => Glyphs { unselected: "○", running: "●", cursor: "▶" },
            IconStyle::Ascii => Glyphs { unselected: "o", running: "*", cursor: ">" },
            IconStyle::Blank => Glyphs { unselected: "", running: "", cursor: "" },
        }
    }
}

} // verus!
