//! Which themes exist and which one a name loads.
use vstd::prelude::*;
use crate::discovery::json::same_text;
use crate::discovery::walk::{ends_with, text_ends_with};
use crate::text::{chars_of, insert_sorted_unique, seq_lt, sorted_by, string_of};
use crate::theme::DEFAULT_THEME_NAME;

verus! {

/// The bundled themes, in the order they are registered.
pub open spec fn builtin_names() -> Seq<Seq<char>> {
    seq!["catppuccin-latte"@, "catppuccin-frappe"@, "catppuccin-macchiato"@, "catppuccin-mocha"@,
        "tokyo-night"@, "gruvbox-dark"@, "dracula"@, "nord"@, "solarized-dark"@, "one-dark"@,
        "mono-amber"@]
}

/// The names of the bundled themes, in registration order.
pub fn builtin_theme_names() -> (r: Vec<&'static str>)
    ensures
        r@.map_values(|n: &str| n@) == builtin_names(),
{
    let r: Vec<&'static str> = vec!["catppuccin-latte", "catppuccin-frappe", "catppuccin-macchiato",
        "catppuccin-mocha", "tokyo-night", "gruvbox-dark", "dracula", "nord", "solarized-dark",
        "one-dark", "mono-amber"];
    assert(r@.map_values(|n: &str| n@) =~= builtin_names());
    r
}

/// Whether a bundled theme has this name.
pub fn is_builtin(name: &str) -> (r: bool)
    ensures
        r == builtin_names().contains(name@),
{
    let names = builtin_theme_names();
    let ghost nv = names@.map_values(|n: &str| n@);
    let mut i: usize = 0;
    while i < names.len()
        invariant
            i <= names.len(),
            nv == names@.map_values(|n: &str| n@),
            nv == builtin_names(),
            forall|k: int| 0 <= k < i ==> nv[k] != name@,
        decreases names.len() - i,
    {
        if same_text(names[i], name) {
            assert(nv[i as int] == name@);
            return true;
        }
        i = i + 1;
    }
    false
}

/// The theme name a file in the themes directory provides: its stem, for
/// a `*.toml` file whose stem is not empty.
pub open spec fn toml_stem_spec(file_name: Seq<char>) -> Option<Seq<char>> {
    if file_name.len() > 5 && ends_with(file_name, ".toml"@) {
        Some(file_name.take(file_name.len() - 5))
    } else {
        None
    }
}

pub fn toml_stem(file_name: &str) -> (r: Option<String>)
    ensures
        r.deep_view() == toml_stem_spec(file_name@),
{
    proof { reveal_strlit(".toml"); }
    let cs = chars_of(file_name);
    if cs.len() > 5 && text_ends_with(file_name, ".toml") {
        let mut stem: Vec<char> = Vec::new();
        let mut i: usize = 0;
        while i < cs.len() - 5
            invariant
                cs.len() > 5,
                i <= cs.len() - 5,
                cs@ == file_name@,
                stem@ == cs@.take(i as int),
            decreases cs.len() - 5 - i,
        {
            stem.push(cs[i]);
            i = i + 1;
            assert(stem@ =~= cs@.take(i as int));
        }
        Some(string_of(&stem))
    } else {
        None
    }
}

/// Every theme name on offer: the bundled ones and the user's, each once,
/// in `str` order.
pub fn theme_names(user_stems: &Vec<String>) -> (r: Vec<String>)
    ensures
        sorted_by(r.deep_view(), false),
        r.deep_view().to_set() == builtin_names().to_set() + user_stems.deep_view().to_set(),
{
    let builtins = builtin_theme_names();
    let ghost bv = builtins@.map_values(|n: &str| n@);
    let ghost uv = user_stems.deep_view();
    let mut out: Vec<String> = Vec::new();
    assert(out.deep_view().to_set() =~= Set::<Seq<char>>::empty());
    let mut i: usize = 0;
    while i < builtins.len()
        invariant
            i <= builtins.len(),
            bv == builtins@.map_values(|n: &str| n@),
            bv == builtin_names(),
            sorted_by(out.deep_view(), false),
            out.deep_view().to_set() == bv.take(i as int).to_set(),
        decreases builtins.len() - i,
    {
        let name = crate::discovery::parse::text(builtins[i]);
        insert_sorted_unique(&mut out, &name, false);
        assert(bv.take(i + 1) =~= bv.take(i as int).push(bv[i as int]));
        proof { bv.take(i as int).lemma_push_to_set_commute(bv[i as int]); }
        i = i + 1;
    }
    assert(bv.take(i as int) =~= bv);
    let mut j: usize = 0;
    while j < user_stems.len()
        invariant
            j <= user_stems.len(),
            bv == builtin_names(),
            uv == user_stems.deep_view(),
            sorted_by(out.deep_view(), false),
            out.deep_view().to_set() == bv.to_set() + uv.take(j as int).to_set(),
        decreases user_stems.len() - j,
    {
        insert_sorted_unique(&mut out, &user_stems[j], false);
        assert(uv.take(j + 1) =~= uv.take(j as int).push(uv[j as int]));
        proof { uv.take(j as int).lemma_push_to_set_commute(uv[j as int]); }
        assert(out.deep_view().to_set() =~= bv.to_set() + uv.take(j + 1).to_set());
        j = j + 1;
    }
    assert(uv.take(j as int) =~= uv);
    out
}

/// Where the colours of a theme come from.
pub enum ThemeSource {
    /// The user's theme file of that name, which was read.
    User,
    /// The bundled theme of this name.
    Builtin(&'static str),
}

/// The theme a name loads: the user's file when it was read, else the
/// bundled theme of that name, else the default theme.
pub fn theme_to_load(name: &str, user_theme_read: bool) -> (r: ThemeSource)
    ensures
        user_theme_read ==> r is User,
        !user_theme_read && builtin_names().contains(name@) ==> (r matches ThemeSource::Builtin(n) && n@ == name@),
        !user_theme_read && !builtin_names().contains(name@) ==> (r matches ThemeSource::Builtin(n) && n@ == DEFAULT_THEME_NAME@),
{
    if user_theme_read {
        return ThemeSource::User;
    }
    let names = builtin_theme_names();
    let ghost nv = names@.map_values(|n: &str| n@);
    let mut i: usize = 0;
    while i < names.len()
        invariant
            !user_theme_read,
            i <= names.len(),
            nv == names@.map_values(|n: &str| n@),
            nv == builtin_names(),
            forall|k: int| 0 <= k < i ==> nv[k] != name@,
        decreases names.len() - i,
    {
        if same_text(names[i], name) {
            assert(nv[i as int] == names@[i as int]@);
            assert(builtin_names()[i as int] == name@);
            assert(builtin_names().contains(name@));
            return ThemeSource::Builtin(names[i]);
        }
        i = i + 1;
    }
    ThemeSource::Builtin(DEFAULT_THEME_NAME)
}

} // verus!
