//! The texts of the top bar.
use vstd::prelude::*;
use crate::app::state::{App, AppView};
use crate::text::{dec, push_decimal, push_str};
use crate::discovery::walk::{path_parent, std_path_parent};

verus! {

/// The recipes of all justfiles together.
pub open spec fn recipes_in(js: Seq<crate::app::types::JustfileView>) -> int
    decreases js.len(),
{
    if js.len() == 0 { 0 } else { recipes_in(js.drop_last()) + js.last().recipes.len() }
}

/// The count of recipes over all justfiles (at most `u64::MAX`).
pub fn total_recipes(app: &App) -> (r: u64)
    ensures
        recipes_in(app@.justfiles) <= u64::MAX ==> r == recipes_in(app@.justfiles),
{
    let mut total: u64 = 0;
    let mut saturated = false;
    let mut i: usize = 0;
    assert(app@.justfiles.take(0) =~= Seq::<crate::app::types::JustfileView>::empty());
    while i < app.justfiles.len()
        invariant
            i <= app.justfiles.len(),
            !saturated ==> total == recipes_in(app@.justfiles.take(i as int)),
            saturated ==> recipes_in(app@.justfiles.take(i as int)) > u64::MAX,
        decreases app.justfiles.len() - i,
    {
        assert(app@.justfiles.take(i + 1).drop_last() =~= app@.justfiles.take(i as int));
        assert(app@.justfiles.take(i + 1).last().recipes.len() == app.justfiles@[i as int].recipes@.len());
        let n = app.justfiles[i].recipes.len() as u64;
        if !saturated {
            match total.checked_add(n) {
                Some(t) => total = t,
                None => {
                    saturated = true;
                    total = u64::MAX;
                },
            }
        }
        i = i + 1;
    }
    assert(app@.justfiles.take(i as int) =~= app@.justfiles);
    total
}

/// `  · N justfiles, M recipes`.
pub fn counts_text(justfiles: u64, recipes: u64) -> (r: String)
    ensures
        r@ == "  · "@ + dec(justfiles as nat) + " justfiles, "@ + dec(recipes as nat) + " recipes"@,
{
    let mut r = String::new();
    push_str(&mut r, "  · ");
    push_decimal(&mut r, justfiles);
    push_str(&mut r, " justfiles, ");
    push_decimal(&mut r, recipes);
    push_str(&mut r, " recipes");
    r
}

/// ` N load errors `, the badge for failed justfiles.
pub fn load_errors_text(n: u64) -> (r: String)
    ensures
        r@ == " "@ + dec(n as nat) + " load errors "@,
{
    let mut r = String::new();
    push_str(&mut r, " ");
    push_decimal(&mut r, n);
    push_str(&mut r, " load errors ");
    r
}

/// `N recipes`, the count of the active justfile's recipes.
pub fn recipe_count_text(n: u64) -> (r: String)
    ensures
        r@ == dec(n as nat) + " recipes"@,
{
    let mut r = String::new();
    push_decimal(&mut r, n);
    push_str(&mut r, " recipes");
    r
}

/// The columns left for the path: the bar's width less the rest of its
/// text, but never fewer than `floor`.
pub fn path_budget(width: usize, chrome: usize, floor: usize) -> (r: usize)
    ensures
        r == (if width >= chrome && width - chrome >= floor { (width - chrome) as usize } else { floor }),
{
    if width >= chrome && width - chrome >= floor { width - chrome } else { floor }
}

/// What `Path::file_name` gives for the path `p` (as text).
pub uninterp spec fn std_file_name(p: Seq<char>) -> Option<Seq<char>>;

/// `Path::new(p).file_name()`, as text: the last component, `None` when
/// the path ends in `..` or is a root or empty.
#[verifier::external_body]
fn path_file_name(p: &str) -> (r: Option<String>)
    ensures
        r.deep_view() == std_file_name(p@),
        p@.len() == 0 ==> r is None,
{
    match std::path::Path::new(p).file_name() {
        Some(n) => Some(n.to_string_lossy().into_owned()),
        None => None,
    }
}

/// The badge at the right of the top bar: the name of the directory that
/// holds the active justfile, when it has one.
pub fn parent_badge(path: &str) -> (r: Option<String>)
    ensures
        r.deep_view() == match std_path_parent(path@) {
            Some(q) => std_file_name(q),
            None => None,
        },
{
    match path_parent(path) {
        Some(q) => path_file_name(q.as_str()),
        None => None,
    }
}

/// The recipe count of the active justfile (0 when there is none).
pub fn active_recipe_count(app: &App) -> (r: u64)
    ensures
        app@.active_justfile < app@.justfiles.len() && app@.justfiles[app@.active_justfile as int].recipes.len() <= u64::MAX
            ==> r == app@.justfiles[app@.active_justfile as int].recipes.len(),
        app@.active_justfile >= app@.justfiles.len() ==> r == 0,
{
    if app.active_justfile < app.justfiles.len() {
        app.justfiles[app.active_justfile].recipes.len() as u64
    } else {
        0
    }
}

/// The columns the active-mode top bar spends on everything but the path:
/// the leading and trailing text, and the error badge with its three
/// spaces of separation (saturating).
pub fn active_chrome_width(leading: usize, trailing: usize, badge: Option<usize>) -> (r: usize)
    ensures
        r == ({
            let total: int = leading + trailing + match badge { Some(b) => b + 3, None => 0 };
            if total > usize::MAX { usize::MAX as int } else { total }
        }),
{
    let b: usize = match badge {
        Some(w) => w.saturating_add(3),
        None => 0,
    };
    leading.saturating_add(trailing).saturating_add(b)
}

} // verus!
