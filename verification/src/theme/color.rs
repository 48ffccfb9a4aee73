//! Colour values of theme files: a palette index, `#rrggbb`, or a name.
use vstd::prelude::*;
use crate::text::{ascii_lower_seq, chars_of, lemma_ascii_lower_seq, ascii_lower_char};

verus! {

/// The terminal colours a theme slot can hold.
#[derive(Debug, Clone, Copy, PartialEq, Eq, Structural)]
pub enum Color {
    Reset,
    Black,
    Red,
    Green,
    Yellow,
    Blue,
    Magenta,
    Cyan,
    Gray,
    DarkGray,
    LightRed,
    LightGreen,
    LightYellow,
    LightBlue,
    LightMagenta,
    LightCyan,
    White,
    Rgb(u8, u8, u8),
    Indexed(u8),
}

/// Unicode `White_Space`, what `str::trim` strips.
pub open spec fn is_ws(c: char) -> bool {
    ('\u{9}' <= c && c <= '\u{d}') || c == ' ' || c == '\u{85}' || c == '\u{a0}' || c == '\u{1680}'
        || ('\u{2000}' <= c && c <= '\u{200a}') || c == '\u{2028}' || c == '\u{2029}' || c == '\u{202f}'
        || c == '\u{205f}' || c == '\u{3000}'
}

pub open spec fn trim_start_ws(s: Seq<char>) -> Seq<char>
    decreases s.len(),
{
    if s.len() > 0 && is_ws(s[0]) { trim_start_ws(s.drop_first()) } else { s }
}

pub open spec fn trim_end_ws(s: Seq<char>) -> Seq<char>
    decreases s.len(),
{
    if s.len() > 0 && is_ws(s.last()) { trim_end_ws(s.drop_last()) } else { s }
}

/// `str::trim`.
pub open spec fn trim_ws(s: Seq<char>) -> Seq<char> {
    trim_end_ws(trim_start_ws(s))
}

pub open spec fn dec_digit(c: char) -> bool {
    '0' <= c && c <= '9'
}

pub open spec fn digit_value(c: char) -> int {
    (c as u32) - 0x30
}

/// The value of decimal digits.
pub open spec fn dec_value(ds: Seq<char>) -> int
    decreases ds.len(),
{
    if ds.len() == 0 { 0 } else { dec_value(ds.drop_last()) * 10 + digit_value(ds.last()) }
}

pub open spec fn all_dec(ds: Seq<char>) -> bool {
    forall|i: int| 0 <= i < ds.len() ==> dec_digit(#[trigger] ds[i])
}

/// `str::parse::<u8>`: an optional `+`, then at least one digit, at most 255.
pub open spec fn parse_u8_spec(t: Seq<char>) -> Option<u8> {
    let ds = if t.len() > 0 && t[0] == '+' { t.drop_first() } else { t };
    if ds.len() > 0 && all_dec(ds) && dec_value(ds) <= 255 { Some(dec_value(ds) as u8) } else { None }
}

pub open spec fn hex_value(c: char) -> Option<int> {
    if '0' <= c && c <= '9' {
        Some((c as u32) - 0x30)
    } else if 'a' <= c && c <= 'f' {
        Some((c as u32) - 0x61 + 10)
    } else if 'A' <= c && c <= 'F' {
        Some((c as u32) - 0x41 + 10)
    } else {
        None
    }
}

/// `u8::from_str_radix(p, 16)` on a piece two bytes long: two hex digits,
/// or `+` and one.
pub open spec fn hex_pair(p: Seq<char>) -> Option<u8> {
    if p.len() == 2 {
        if p[0] == '+' {
            match hex_value(p[1]) { Some(v) => Some(v as u8), None => None }
        } else {
            match (hex_value(p[0]), hex_value(p[1])) {
                (Some(a), Some(b)) => Some((a * 16 + b) as u8),
                _ => None,
            }
        }
    } else {
        None
    }
}

/// Bytes a character takes in UTF-8.
pub open spec fn utf8_len(c: char) -> int {
    let v = (c as u32) as int;
    if v < 0x80 { 1 } else if v < 0x800 { 2 } else if v < 0x10000 { 3 } else { 4 }
}

/// Bytes a string takes in UTF-8 (`str::len`).
pub open spec fn byte_len(s: Seq<char>) -> int
    decreases s.len(),
{
    if s.len() == 0 { 0 } else { byte_len(s.drop_last()) + utf8_len(s.last()) }
}

/// Byte offset `b` of `s` falls between two characters, after `k` of them.
pub open spec fn cut_at(s: Seq<char>, k: int, b: int) -> bool {
    0 <= k <= s.len() && byte_len(s.take(k)) == b
}

/// The named colours, written in lower case (`to_ascii_lowercase` first).
pub open spec fn named_color(n: Seq<char>) -> Option<Color> {
    if n == "black"@ { Some(Color::Black) }
    else if n == "red"@ { Some(Color::Red) }
    else if n == "green"@ { Some(Color::Green) }
    else if n == "yellow"@ { Some(Color::Yellow) }
    else if n == "blue"@ { Some(Color::Blue) }
    else if n == "magenta"@ { Some(Color::Magenta) }
    else if n == "cyan"@ { Some(Color::Cyan) }
    else if n == "gray"@ || n == "grey"@ { Some(Color::Gray) }
    else if n == "dark_gray"@ || n == "darkgray"@ || n == "dark_grey"@ || n == "darkgrey"@ { Some(Color::DarkGray) }
    else if n == "light_red"@ || n == "lightred"@ || n == "bright_red"@ || n == "brightred"@ { Some(Color::LightRed) }
    else if n == "light_green"@ || n == "lightgreen"@ || n == "bright_green"@ || n == "brightgreen"@ { Some(Color::LightGreen) }
    else if n == "light_yellow"@ || n == "lightyellow"@ || n == "bright_yellow"@ || n == "brightyellow"@ { Some(Color::LightYellow) }
    else if n == "light_blue"@ || n == "lightblue"@ || n == "bright_blue"@ || n == "brightblue"@ { Some(Color::LightBlue) }
    else if n == "light_magenta"@ || n == "lightmagenta"@ || n == "bright_magenta"@ || n == "brightmagenta"@ { Some(Color::LightMagenta) }
    else if n == "light_cyan"@ || n == "lightcyan"@ || n == "bright_cyan"@ || n == "brightcyan"@ { Some(Color::LightCyan) }
    else if n == "white"@ { Some(Color::White) }
    else { None }
}

/// The `#rrggbb` form: exactly six bytes after `#`, cut into three pairs.
pub open spec fn hex_color(hex: Seq<char>) -> Option<Color> {
    if byte_len(hex) == 6 {
        let k2 = choose|k: int| cut_at(hex, k, 2);
        let k4 = choose|k: int| cut_at(hex, k, 4);
        match (hex_pair(hex.take(k2)), hex_pair(hex.subrange(k2, k4)), hex_pair(hex.skip(k4))) {
            (Some(r), Some(g), Some(b)) => Some(Color::Rgb(r, g, b)),
            _ => None,
        }
    } else {
        None
    }
}

/// What a colour string in a theme file means; `None` when it is invalid.
pub open spec fn parse_color_spec(s: Seq<char>) -> Option<Color> {
    let t = trim_ws(s);
    match parse_u8_spec(t) {
        Some(n) => Some(Color::Indexed(n)),
        None => if t.len() > 0 && t[0] == '#' {
            hex_color(t.drop_first())
        } else {
            named_color(ascii_lower_seq(t))
        },
    }
}

/// The inputs `parse_color` reads without slicing a character in two: when
/// the text after `#` is six bytes long, bytes 2 and 4 start characters.
pub open spec fn color_text_ok(s: Seq<char>) -> bool {
    let t = trim_ws(s);
    (t.len() > 0 && t[0] == '#' && byte_len(t.drop_first()) == 6) ==>
        (exists|k: int| cut_at(t.drop_first(), k, 2)) && (exists|k: int| cut_at(t.drop_first(), k, 4))
}

} // verus!

verus! {

proof fn lemma_trim_start(s: Seq<char>, lo: int)
    requires
        0 <= lo <= s.len(),
        forall|k: int| 0 <= k < lo ==> is_ws(s[k]),
        lo < s.len() ==> !is_ws(s[lo]),
    ensures
        trim_start_ws(s) == s.skip(lo),
    decreases lo,
{
    if lo > 0 {
        lemma_trim_start(s.drop_first(), lo - 1);
        assert(s.drop_first().skip(lo - 1) =~= s.skip(lo));
    } else {
        assert(s.skip(0) =~= s);
    }
}

proof fn lemma_trim_end(s: Seq<char>, hi: int)
    requires
        0 <= hi <= s.len(),
        forall|k: int| hi <= k < s.len() ==> is_ws(s[k]),
        hi > 0 ==> !is_ws(s[hi - 1]),
    ensures
        trim_end_ws(s) == s.take(hi),
    decreases s.len() - hi,
{
    if hi < s.len() {
        lemma_trim_end(s.drop_last(), hi);
        assert(s.drop_last().take(hi) =~= s.take(hi));
    } else {
        assert(s.take(hi) =~= s);
    }
}

fn is_ws_char(c: char) -> (r: bool)
    ensures
        r == is_ws(c),
{
    ('\u{9}' <= c && c <= '\u{d}') || c == ' ' || c == '\u{85}' || c == '\u{a0}' || c == '\u{1680}'
        || ('\u{2000}' <= c && c <= '\u{200a}') || c == '\u{2028}' || c == '\u{2029}' || c == '\u{202f}'
        || c == '\u{205f}' || c == '\u{3000}'
}

/// The characters of `str::trim(s)`.
pub fn trim_chars(s: &str) -> (r: Vec<char>)
    ensures
        r@ == trim_ws(s@),
{
    let cs = chars_of(s);
    let mut lo: usize = 0;
    while lo < cs.len() && is_ws_char(cs[lo])
        invariant
            lo <= cs.len(),
            forall|k: int| 0 <= k < lo ==> is_ws(cs@[k]),
        decreases cs.len() - lo,
    {
        lo = lo + 1;
    }
    proof { lemma_trim_start(cs@, lo as int); }
    let ghost u = cs@.skip(lo as int);
    let mut hi: usize = cs.len();
    while hi > lo && is_ws_char(cs[hi - 1])
        invariant
            lo <= hi <= cs.len(),
            forall|k: int| hi <= k < cs.len() ==> is_ws(cs@[k]),
        decreases hi,
    {
        hi = hi - 1;
    }
    proof {
        lemma_trim_end(u, hi - lo);
        assert(u.take(hi - lo) =~= cs@.subrange(lo as int, hi as int));
    }
    let mut r: Vec<char> = Vec::new();
    let mut i: usize = lo;
    while i < hi
        invariant
            lo <= i <= hi <= cs.len(),
            r@ == cs@.subrange(lo as int, i as int),
        decreases hi - i,
    {
        r.push(cs[i]);
        i = i + 1;
        assert(r@ =~= cs@.subrange(lo as int, i as int));
    }
    r
}

proof fn lemma_dec_value_grows(ds: Seq<char>, k: int)
    requires
        0 <= k <= ds.len(),
        all_dec(ds),
    ensures
        dec_value(ds) >= dec_value(ds.take(k)) >= 0,
    decreases ds.len() - k,
{
    if k < ds.len() {
        assert(ds.drop_last().take(k) =~= ds.take(k));
        assert(all_dec(ds.drop_last())) by {
            assert forall|i: int| 0 <= i < ds.drop_last().len() implies dec_digit(#[trigger] ds.drop_last()[i]) by {
                assert(dec_digit(ds[i]));
            }
        }
        lemma_dec_value_grows(ds.drop_last(), k);
        assert(dec_digit(ds.last()));
    } else {
        assert(ds.take(k) =~= ds);
        lemma_dec_nonneg(ds);
    }
}

proof fn lemma_dec_nonneg(ds: Seq<char>)
    requires
        all_dec(ds),
    ensures
        dec_value(ds) >= 0,
    decreases ds.len(),
{
    if ds.len() > 0 {
        assert(all_dec(ds.drop_last())) by {
            assert forall|i: int| 0 <= i < ds.drop_last().len() implies dec_digit(#[trigger] ds.drop_last()[i]) by {
                assert(dec_digit(ds[i]));
            }
        }
        lemma_dec_nonneg(ds.drop_last());
        assert(dec_digit(ds.last()));
    }
}

/// `str::parse::<u8>` on characters.
fn parse_u8_chars(t: &Vec<char>) -> (r: Option<u8>)
    ensures
        r == parse_u8_spec(t@),
{
    let start: usize = if t.len() > 0 && t[0] == '+' { 1 } else { 0 };
    let ghost ds = if t@.len() > 0 && t@[0] == '+' { t@.drop_first() } else { t@ };
    assert(ds =~= t@.skip(start as int));
    if start == t.len() {
        return None;
    }
    let mut acc: u32 = 0;
    let mut i: usize = start;
    while i < t.len()
        invariant
            start <= i <= t.len(),
            start < t.len(),
            ds == t@.skip(start as int),
            ds == (if t@.len() > 0 && t@[0] == '+' { t@.drop_first() } else { t@ }),
            forall|k: int| 0 <= k < i - start ==> dec_digit(#[trigger] ds[k]),
            acc == dec_value(ds.take(i - start)),
            acc <= 255,
        decreases t.len() - i,
    {
        let c = t[i];
        if !('0' <= c && c <= '9') {
            assert(ds[i - start] == c);
            assert(!all_dec(ds));
            return None;
        }
        assert(ds.take(i - start + 1).drop_last() =~= ds.take(i - start));
        assert(ds[i - start] == c);
        let d: u32 = (c as u32) - 0x30;
        let next: u32 = acc * 10 + d;
        if next > 255 {
            proof {
                assert forall|k: int| 0 <= k < i - start + 1 implies dec_digit(#[trigger] ds[k]) by {}
                if all_dec(ds) {
                    lemma_dec_value_grows(ds, i - start + 1);
                }
            }
            return None;
        }
        acc = next;
        i = i + 1;
    }
    assert(ds.take(i - start) =~= ds);
    assert(all_dec(ds));
    Some(acc as u8)
}

fn hex_digit(c: char) -> (r: Option<u8>)
    ensures
        match hex_value(c) {
            Some(v) => r == Some(v as u8) && v < 16,
            None => r is None,
        },
{
    if '0' <= c && c <= '9' {
        Some(((c as u32) - 0x30) as u8)
    } else if 'a' <= c && c <= 'f' {
        Some(((c as u32) - 0x61 + 10) as u8)
    } else if 'A' <= c && c <= 'F' {
        Some(((c as u32) - 0x41 + 10) as u8)
    } else {
        None
    }
}

fn hex_pair_exec(p: &Vec<char>, from: usize, to: usize) -> (r: Option<u8>)
    requires
        from <= to <= p.len(),
    ensures
        r == hex_pair(p@.subrange(from as int, to as int)),
{
    let ghost q = p@.subrange(from as int, to as int);
    if to - from != 2 {
        return None;
    }
    assert(q[0] == p@[from as int] && q[1] == p@[from + 1]);
    if p[from] == '+' {
        match hex_digit(p[from + 1]) {
            Some(v) => Some(v),
            None => None,
        }
    } else {
        match (hex_digit(p[from]), hex_digit(p[from + 1])) {
            (Some(a), Some(b)) => Some(a * 16 + b),
            _ => None,
        }
    }
}

fn utf8_len_exec(c: char) -> (r: usize)
    ensures
        r as int == utf8_len(c),
{
    let v = c as u32;
    if v < 0x80 { 1 } else if v < 0x800 { 2 } else if v < 0x10000 { 3 } else { 4 }
}

} // verus!

verus! {

proof fn lemma_byte_len_take_step(s: Seq<char>, k: int)
    requires
        0 <= k < s.len(),
    ensures
        byte_len(s.take(k + 1)) == byte_len(s.take(k)) + utf8_len(s[k]),
        utf8_len(s[k]) >= 1,
{
    assert(s.take(k + 1).drop_last() =~= s.take(k));
}

proof fn lemma_byte_len_strict(s: Seq<char>, a: int, b: int)
    requires
        0 <= a < b <= s.len(),
    ensures
        byte_len(s.take(a)) < byte_len(s.take(b)),
    decreases b - a,
{
    lemma_byte_len_take_step(s, b - 1);
    if a < b - 1 {
        lemma_byte_len_strict(s, a, b - 1);
    }
}

proof fn lemma_cut_unique(s: Seq<char>, k1: int, k2: int, b: int)
    requires
        cut_at(s, k1, b),
        cut_at(s, k2, b),
    ensures
        k1 == k2,
{
    if k1 < k2 { lemma_byte_len_strict(s, k1, k2); }
    if k2 < k1 { lemma_byte_len_strict(s, k2, k1); }
}

/// The `#rrggbb` colour of the text after `#`.
fn hex_color_exec(h: &Vec<char>) -> (r: Option<Color>)
    requires
        byte_len(h@) == 6 ==> (exists|k: int| cut_at(h@, k, 2)) && (exists|k: int| cut_at(h@, k, 4)),
    ensures
        r == hex_color(h@),
{
    let mut acc: usize = 0;
    let mut k2: Option<usize> = None;
    let mut k4: Option<usize> = None;
    let mut i: usize = 0;
    assert(h@.take(0) =~= Seq::<char>::empty());
    loop
        invariant
            i <= h.len(),
            acc as int == byte_len(h@.take(i as int)),
            acc <= 6,
            match k2 { Some(k) => cut_at(h@, k as int, 2) && k <= i, None => forall|k: int| 0 <= k < i ==> !cut_at(h@, k, 2) },
            match k4 { Some(k) => cut_at(h@, k as int, 4) && k <= i, None => forall|k: int| 0 <= k < i ==> !cut_at(h@, k, 4) },
        ensures
            i == h.len(),
            acc as int == byte_len(h@),
            match k2 { Some(k) => cut_at(h@, k as int, 2), None => forall|k: int| 0 <= k <= h.len() ==> !cut_at(h@, k, 2) },
            match k4 { Some(k) => cut_at(h@, k as int, 4), None => forall|k: int| 0 <= k <= h.len() ==> !cut_at(h@, k, 4) },
        decreases h.len() - i,
    {
        if acc == 2 && k2.is_none() {
            k2 = Some(i);
        }
        if acc == 4 && k4.is_none() {
            k4 = Some(i);
        }
        if i == h.len() {
            assert(h@.take(i as int) =~= h@);
            break;
        }
        proof { lemma_byte_len_take_step(h@, i as int); }
        let add = utf8_len_exec(h[i]);
        if acc + add > 6 {
            proof {
                if i + 1 < h.len() { lemma_byte_len_strict(h@, i + 1, h.len() as int); }
                assert(h@.take(h.len() as int) =~= h@);
            }
            return None;
        }
        acc = acc + add;
        i = i + 1;
    }
    if acc != 6 {
        return None;
    }
    let (a, b) = match (k2, k4) {
        (Some(a), Some(b)) => (a, b),
        _ => {
            assert(false);
            return None;
        },
    };
    proof {
        let c2 = choose|k: int| cut_at(h@, k, 2);
        let c4 = choose|k: int| cut_at(h@, k, 4);
        lemma_cut_unique(h@, c2, a as int, 2);
        lemma_cut_unique(h@, c4, b as int, 4);
        if b < a { lemma_byte_len_strict(h@, b as int, a as int); }
        assert(h@.take(a as int) =~= h@.subrange(0, a as int));
        assert(h@.skip(b as int) =~= h@.subrange(b as int, h.len() as int));
    }
    match (hex_pair_exec(h, 0, a), hex_pair_exec(h, a, b), hex_pair_exec(h, b, h.len())) {
        (Some(r), Some(g), Some(bl)) => Some(Color::Rgb(r, g, bl)),
        _ => None,
    }
}

} // verus!

verus! {

fn is_name(n: &str, a: &str) -> (r: bool)
    ensures
        r == (n@ == a@),
{
    crate::discovery::json::same_text(n, a)
}

fn named_color_exec(n: &str) -> (r: Option<Color>)
    ensures
        r == named_color(n@),
{
    if is_name(n, "black") { Some(Color::Black) }
    else if is_name(n, "red") { Some(Color::Red) }
    else if is_name(n, "green") { Some(Color::Green) }
    else if is_name(n, "yellow") { Some(Color::Yellow) }
    else if is_name(n, "blue") { Some(Color::Blue) }
    else if is_name(n, "magenta") { Some(Color::Magenta) }
    else if is_name(n, "cyan") { Some(Color::Cyan) }
    else if is_name(n, "gray") || is_name(n, "grey") { Some(Color::Gray) }
    else if is_name(n, "dark_gray") || is_name(n, "darkgray") || is_name(n, "dark_grey") || is_name(n, "darkgrey") { Some(Color::DarkGray) }
    else if is_name(n, "light_red") || is_name(n, "lightred") || is_name(n, "bright_red") || is_name(n, "brightred") { Some(Color::LightRed) }
    else if is_name(n, "light_green") || is_name(n, "lightgreen") || is_name(n, "bright_green") || is_name(n, "brightgreen") { Some(Color::LightGreen) }
    else if is_name(n, "light_yellow") || is_name(n, "lightyellow") || is_name(n, "bright_yellow") || is_name(n, "brightyellow") { Some(Color::LightYellow) }
    else if is_name(n, "light_blue") || is_name(n, "lightblue") || is_name(n, "bright_blue") || is_name(n, "brightblue") { Some(Color::LightBlue) }
    else if is_name(n, "light_magenta") || is_name(n, "lightmagenta") || is_name(n, "bright_magenta") || is_name(n, "brightmagenta") { Some(Color::LightMagenta) }
    else if is_name(n, "light_cyan") || is_name(n, "lightcyan") || is_name(n, "bright_cyan") || is_name(n, "brightcyan") { Some(Color::LightCyan) }
    else if is_name(n, "white") { Some(Color::White) }
    else { None }
}

/// The colour a theme file gives as text (surrounding whitespace ignored):
/// a palette index `0`-`255`, `#rrggbb`, or a colour name in any case;
/// `None` when the text is none of these.
pub fn color_of(s: &str) -> (r: Option<Color>)
    requires
        color_text_ok(s@),
    ensures
        r == parse_color_spec(s@),
{
    let t = trim_chars(s);
    match parse_u8_chars(&t) {
        Some(n) => {
            return Some(Color::Indexed(n));
        },
        None => {},
    }
    if t.len() > 0 && t[0] == '#' {
        let mut h: Vec<char> = Vec::new();
        let mut i: usize = 1;
        while i < t.len()
            invariant
                1 <= i <= t.len(),
                h@ == t@.subrange(1, i as int),
            decreases t.len() - i,
        {
            h.push(t[i]);
            i = i + 1;
            assert(h@ =~= t@.subrange(1, i as int));
        }
        assert(h@ =~= t@.drop_first());
        return hex_color_exec(&h);
    }
    let mut lower: Vec<char> = Vec::new();
    let mut i: usize = 0;
    proof { lemma_ascii_lower_seq(t@); }
    while i < t.len()
        invariant
            i <= t.len(),
            ascii_lower_seq(t@).len() == t@.len(),
            forall|k: int| 0 <= k < t@.len() ==> #[trigger] ascii_lower_seq(t@)[k] == crate::text::ascii_lower(t@[k]),
            lower@ == ascii_lower_seq(t@).take(i as int),
        decreases t.len() - i,
    {
        lower.push(ascii_lower_char(t[i]));
        i = i + 1;
        assert(lower@ =~= ascii_lower_seq(t@).take(i as int));
    }
    assert(ascii_lower_seq(t@).take(i as int) =~= ascii_lower_seq(t@));
    let name = crate::text::string_of(&lower);
    named_color_exec(name.as_str())
}


/// A text whose trimmed, lower-cased form starts with a letter is read as
/// a colour name: it is neither a palette index nor `#rrggbb`.
proof fn lemma_letter_is_name(s: Seq<char>)
    requires
        ascii_lower_seq(trim_ws(s)).len() > 0,
        'a' <= ascii_lower_seq(trim_ws(s))[0] <= 'z',
    ensures
        parse_color_spec(s) == named_color(ascii_lower_seq(trim_ws(s))),
{
    let t = trim_ws(s);
    lemma_ascii_lower_seq(t);
    assert(ascii_lower_seq(t)[0] == crate::text::ascii_lower(t[0]));
    assert(t[0] != '+' && t[0] != '#' && !dec_digit(t[0]));
    assert(parse_u8_spec(t) is None);
}

/// Each colour name reads as the colour of that name, in any ASCII case
/// and with surrounding whitespace ignored (`magenta`, ` Magenta ` and
/// `MAGENTA` are all magenta; `grey` and `gray` are the same grey; the
/// `light_` / `bright_` forms, with or without `_`, are the light colours).
pub proof fn law_color_names(s: Seq<char>)
    ensures
        ({
            let n = ascii_lower_seq(trim_ws(s));
            &&& (n == "black"@) ==> parse_color_spec(s) == Some(Color::Black)
            &&& (n == "red"@) ==> parse_color_spec(s) == Some(Color::Red)
            &&& (n == "green"@) ==> parse_color_spec(s) == Some(Color::Green)
            &&& (n == "yellow"@) ==> parse_color_spec(s) == Some(Color::Yellow)
            &&& (n == "blue"@) ==> parse_color_spec(s) == Some(Color::Blue)
            &&& (n == "magenta"@) ==> parse_color_spec(s) == Some(Color::Magenta)
            &&& (n == "cyan"@) ==> parse_color_spec(s) == Some(Color::Cyan)
            &&& (n == "gray"@ || n == "grey"@) ==> parse_color_spec(s) == Some(Color::Gray)
            &&& (n == "dark_gray"@ || n == "darkgray"@ || n == "dark_grey"@ || n == "darkgrey"@) ==> parse_color_spec(s) == Some(Color::DarkGray)
            &&& (n == "light_red"@ || n == "lightred"@ || n == "bright_red"@ || n == "brightred"@) ==> parse_color_spec(s) == Some(Color::LightRed)
            &&& (n == "light_green"@ || n == "lightgreen"@ || n == "bright_green"@ || n == "brightgreen"@) ==> parse_color_spec(s) == Some(Color::LightGreen)
            &&& (n == "light_yellow"@ || n == "lightyellow"@ || n == "bright_yellow"@ || n == "brightyellow"@) ==> parse_color_spec(s) == Some(Color::LightYellow)
            &&& (n == "light_blue"@ || n == "lightblue"@ || n == "bright_blue"@ || n == "brightblue"@) ==> parse_color_spec(s) == Some(Color::LightBlue)
            &&& (n == "light_magenta"@ || n == "lightmagenta"@ || n == "bright_magenta"@ || n == "brightmagenta"@) ==> parse_color_spec(s) == Some(Color::LightMagenta)
            &&& (n == "light_cyan"@ || n == "lightcyan"@ || n == "bright_cyan"@ || n == "brightcyan"@) ==> parse_color_spec(s) == Some(Color::LightCyan)
            &&& (n == "white"@) ==> parse_color_spec(s) == Some(Color::White)
        }),
{
    reveal_strlit("black");
    reveal_strlit("red");
    reveal_strlit("green");
    reveal_strlit("yellow");
    reveal_strlit("blue");
    reveal_strlit("magenta");
    reveal_strlit("cyan");
    reveal_strlit("gray");
    reveal_strlit("grey");
    reveal_strlit("dark_gray");
    reveal_strlit("darkgray");
    reveal_strlit("dark_grey");
    reveal_strlit("darkgrey");
    reveal_strlit("light_red");
    reveal_strlit("lightred");
    reveal_strlit("bright_red");
    reveal_strlit("brightred");
    reveal_strlit("light_green");
    reveal_strlit("lightgreen");
    reveal_strlit("bright_green");
    reveal_strlit("brightgreen");
    reveal_strlit("light_yellow");
    reveal_strlit("lightyellow");
    reveal_strlit("bright_yellow");
    reveal_strlit("brightyellow");
    reveal_strlit("light_blue");
    reveal_strlit("lightblue");
    reveal_strlit("bright_blue");
    reveal_strlit("brightblue");
    reveal_strlit("light_magenta");
    reveal_strlit("lightmagenta");
    reveal_strlit("bright_magenta");
    reveal_strlit("brightmagenta");
    reveal_strlit("light_cyan");
    reveal_strlit("lightcyan");
    reveal_strlit("bright_cyan");
    reveal_strlit("brightcyan");
    reveal_strlit("white");
    let n = ascii_lower_seq(trim_ws(s));
    if n == "black"@ {
        lemma_letter_is_name(s);

        assert(named_color(n) == Some(Color::Black));
    }
    if n == "red"@ {
        lemma_letter_is_name(s);

        assert(named_color(n) == Some(Color::Red));
    }
    if n == "green"@ {
        lemma_letter_is_name(s);
        assert("green"@[0] != "black"@[0]);
        assert(named_color(n) == Some(Color::Green));
    }
    if n == "yellow"@ {
        lemma_letter_is_name(s);

        assert(named_color(n) == Some(Color::Yellow));
    }
    if n == "blue"@ {
        lemma_letter_is_name(s);

        assert(named_color(n) == Some(Color::Blue));
    }
    if n == "magenta"@ {
        lemma_letter_is_name(s);

        assert(named_color(n) == Some(Color::Magenta));
    }
    if n == "cyan"@ {
        lemma_letter_is_name(s);
        assert("cyan"@[0] != "blue"@[0]);
        assert(named_color(n) == Some(Color::Cyan));
    }
    if n == "gray"@ {
        lemma_letter_is_name(s);
        assert("gray"@[0] != "blue"@[0]);
        assert("gray"@[0] != "cyan"@[0]);
        assert(named_color(n) == Some(Color::Gray));
    }
    if n == "grey"@ {
        lemma_letter_is_name(s);
        assert("grey"@[0] != "blue"@[0]);
        assert("grey"@[0] != "cyan"@[0]);
        assert("grey"@[2] != "gray"@[2]);
        assert(named_color(n) == Some(Color::Gray));
    }
    if n == "dark_gray"@ {
        lemma_letter_is_name(s);

        assert(named_color(n) == Some(Color::DarkGray));
    }
    if n == "darkgray"@ {
        lemma_letter_is_name(s);

        assert(named_color(n) == Some(Color::DarkGray));
    }
    if n == "dark_grey"@ {
        lemma_letter_is_name(s);
        assert("dark_grey"@[7] != "dark_gray"@[7]);
        assert(named_color(n) == Some(Color::DarkGray));
    }
    if n == "darkgrey"@ {
        lemma_letter_is_name(s);
        assert("darkgrey"@[6] != "darkgray"@[6]);
        assert(named_color(n) == Some(Color::DarkGray));
    }
    if n == "light_red"@ {
        lemma_letter_is_name(s);
        assert("light_red"@[0] != "dark_gray"@[0]);
        assert("light_red"@[0] != "dark_grey"@[0]);
        assert(named_color(n) == Some(Color::LightRed));
    }
    if n == "lightred"@ {
        lemma_letter_is_name(s);
        assert("lightred"@[0] != "darkgray"@[0]);
        assert("lightred"@[0] != "darkgrey"@[0]);
        assert(named_color(n) == Some(Color::LightRed));
    }
    if n == "bright_red"@ {
        lemma_letter_is_name(s);

        assert(named_color(n) == Some(Color::LightRed));
    }
    if n == "brightred"@ {
        lemma_letter_is_name(s);
        assert("brightred"@[0] != "dark_gray"@[0]);
        assert("brightred"@[0] != "dark_grey"@[0]);
        assert("brightred"@[0] != "light_red"@[0]);
        assert(named_color(n) == Some(Color::LightRed));
    }
    if n == "light_green"@ {
        lemma_letter_is_name(s);

        assert(named_color(n) == Some(Color::LightGreen));
    }
    if n == "lightgreen"@ {
        lemma_letter_is_name(s);
        assert("lightgreen"@[0] != "bright_red"@[0]);
        assert(named_color(n) == Some(Color::LightGreen));
    }
    if n == "bright_green"@ {
        lemma_letter_is_name(s);

        assert(named_color(n) == Some(Color::LightGreen));
    }
    if n == "brightgreen"@ {
        lemma_letter_is_name(s);
        assert("brightgreen"@[0] != "light_green"@[0]);
        assert(named_color(n) == Some(Color::LightGreen));
    }
    if n == "light_yellow"@ {
        lemma_letter_is_name(s);
        assert("light_yellow"@[0] != "bright_green"@[0]);
        assert(named_color(n) == Some(Color::LightYellow));
    }
    if n == "lightyellow"@ {
        lemma_letter_is_name(s);
        assert("lightyellow"@[5] != "light_green"@[5]);
        assert("lightyellow"@[0] != "brightgreen"@[0]);
        assert(named_color(n) == Some(Color::LightYellow));
    }
    if n == "bright_yellow"@ {
        lemma_letter_is_name(s);

        assert(named_color(n) == Some(Color::LightYellow));
    }
    if n == "brightyellow"@ {
        lemma_letter_is_name(s);
        assert("brightyellow"@[6] != "bright_green"@[6]);
        assert("brightyellow"@[0] != "light_yellow"@[0]);
        assert(named_color(n) == Some(Color::LightYellow));
    }
    if n == "light_blue"@ {
        lemma_letter_is_name(s);
        assert("light_blue"@[0] != "bright_red"@[0]);
        assert("light_blue"@[5] != "lightgreen"@[5]);
        assert(named_color(n) == Some(Color::LightBlue));
    }
    if n == "lightblue"@ {
        lemma_letter_is_name(s);
        assert("lightblue"@[0] != "dark_gray"@[0]);
        assert("lightblue"@[0] != "dark_grey"@[0]);
        assert("lightblue"@[5] != "light_red"@[5]);
        assert("lightblue"@[0] != "brightred"@[0]);
        assert(named_color(n) == Some(Color::LightBlue));
    }
    if n == "bright_blue"@ {
        lemma_letter_is_name(s);
        assert("bright_blue"@[0] != "light_green"@[0]);
        assert("bright_blue"@[6] != "brightgreen"@[6]);
        assert("bright_blue"@[0] != "lightyellow"@[0]);
        assert(named_color(n) == Some(Color::LightBlue));
    }
    if n == "brightblue"@ {
        lemma_letter_is_name(s);
        assert("brightblue"@[6] != "bright_red"@[6]);
        assert("brightblue"@[0] != "lightgreen"@[0]);
        assert("brightblue"@[0] != "light_blue"@[0]);
        assert(named_color(n) == Some(Color::LightBlue));
    }
    if n == "light_magenta"@ {
        lemma_letter_is_name(s);
        assert("light_magenta"@[0] != "bright_yellow"@[0]);
        assert(named_color(n) == Some(Color::LightMagenta));
    }
    if n == "lightmagenta"@ {
        lemma_letter_is_name(s);
        assert("lightmagenta"@[0] != "bright_green"@[0]);
        assert("lightmagenta"@[5] != "light_yellow"@[5]);
        assert("lightmagenta"@[0] != "brightyellow"@[0]);
        assert(named_color(n) == Some(Color::LightMagenta));
    }
    if n == "bright_magenta"@ {
        lemma_letter_is_name(s);

        assert(named_color(n) == Some(Color::LightMagenta));
    }
    if n == "brightmagenta"@ {
        lemma_letter_is_name(s);
        assert("brightmagenta"@[6] != "bright_yellow"@[6]);
        assert("brightmagenta"@[0] != "light_magenta"@[0]);
        assert(named_color(n) == Some(Color::LightMagenta));
    }
    if n == "light_cyan"@ {
        lemma_letter_is_name(s);
        assert("light_cyan"@[0] != "bright_red"@[0]);
        assert("light_cyan"@[5] != "lightgreen"@[5]);
        assert("light_cyan"@[6] != "light_blue"@[6]);
        assert("light_cyan"@[0] != "brightblue"@[0]);
        assert(named_color(n) == Some(Color::LightCyan));
    }
    if n == "lightcyan"@ {
        lemma_letter_is_name(s);
        assert("lightcyan"@[0] != "dark_gray"@[0]);
        assert("lightcyan"@[0] != "dark_grey"@[0]);
        assert("lightcyan"@[5] != "light_red"@[5]);
        assert("lightcyan"@[0] != "brightred"@[0]);
        assert("lightcyan"@[5] != "lightblue"@[5]);
        assert(named_color(n) == Some(Color::LightCyan));
    }
    if n == "bright_cyan"@ {
        lemma_letter_is_name(s);
        assert("bright_cyan"@[0] != "light_green"@[0]);
        assert("bright_cyan"@[6] != "brightgreen"@[6]);
        assert("bright_cyan"@[0] != "lightyellow"@[0]);
        assert("bright_cyan"@[7] != "bright_blue"@[7]);
        assert(named_color(n) == Some(Color::LightCyan));
    }
    if n == "brightcyan"@ {
        lemma_letter_is_name(s);
        assert("brightcyan"@[6] != "bright_red"@[6]);
        assert("brightcyan"@[0] != "lightgreen"@[0]);
        assert("brightcyan"@[0] != "light_blue"@[0]);
        assert("brightcyan"@[6] != "brightblue"@[6]);
        assert("brightcyan"@[0] != "light_cyan"@[0]);
        assert(named_color(n) == Some(Color::LightCyan));
    }
    if n == "white"@ {
        lemma_letter_is_name(s);
        assert("white"@[0] != "black"@[0]);
        assert("white"@[0] != "green"@[0]);
        assert(named_color(n) == Some(Color::White));
    }
}

} // verus!
