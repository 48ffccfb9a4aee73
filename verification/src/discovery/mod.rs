pub mod json;
pub mod parse;
pub mod walk;

use vstd::prelude::*;
use crate::app::types::{Justfile, JustfileView, Recipe, RecipeView};
use crate::discovery::json::same_text;
use crate::discovery::parse::{parse_dump_with_path, rviews};
use crate::discovery::walk::{absolute_form, absolutize, path_parent, std_path_parent};
use crate::error::{Error, error_text};
use crate::app::view::jviews;
use crate::text::{insert_sorted_unique, sorted_by};

verus! {

/// Where to look for justfiles: a directory to walk, and a justfile to
/// pin (its directory is walked too).
pub struct DiscoverOptions {
    pub path: Option<String>,
    pub justfile: Option<String>,
}

pub struct DiscoveryResult {
    pub justfiles: Vec<Justfile>,
    /// Paths whose dump could not be read, with the reason.
    pub errors: Vec<(String, String)>,
    /// Index into `justfiles` of the entry to pre-select on launch.
    /// 0 when no pin is set or the pin is not found in the result.
    pub active_index: usize,
}

/// `xs` without the entries whose key already occurred earlier.
pub open spec fn first_by_key(xs: Seq<Seq<char>>, keys: Seq<Seq<char>>) -> Seq<Seq<char>>
    decreases xs.len(),
{
    if xs.len() == 0 {
        Seq::empty()
    } else {
        let n = (xs.len() - 1) as int;
        let rest = first_by_key(xs.drop_last(), keys);
        if keys.take(n).contains(keys[n]) { rest } else { rest.push(xs[n]) }
    }
}

/// Keeps each root whose key (its absolute form) has not been seen before.
pub fn dedup_by_keys(roots: Vec<String>, keys: &Vec<String>) -> (r: Vec<String>)
    requires
        roots.len() == keys.len(),
    ensures
        r.deep_view() == first_by_key(roots.deep_view(), keys.deep_view()),
{
    let ghost rv = roots.deep_view();
    let ghost kv = keys.deep_view();
    let mut out: Vec<String> = Vec::new();
    let mut i: usize = 0;
    assert(rv.take(0) =~= Seq::<Seq<char>>::empty());
    while i < roots.len()
        invariant
            i <= roots.len(),
            roots.len() == keys.len(),
            rv == roots.deep_view(),
            kv == keys.deep_view(),
            out.deep_view() == first_by_key(rv.take(i as int), kv),
        decreases roots.len() - i,
    {
        let mut seen = false;
        let mut j: usize = 0;
        while j < i
            invariant
                j <= i < keys.len(),
                kv == keys.deep_view(),
                seen == kv.take(j as int).contains(kv[i as int]),
            decreases i - j,
        {
            assert(kv[j as int] == keys@[j as int]@ && kv[i as int] == keys@[i as int]@);
            let same = same_text(keys[j].as_str(), keys[i].as_str());
            assert(kv.take(j + 1) =~= kv.take(j as int).push(kv[j as int]));
            assert(kv.take(j + 1).contains(kv[i as int]) == (kv.take(j as int).contains(kv[i as int]) || kv[j as int] == kv[i as int])) by {
                if kv.take(j + 1).contains(kv[i as int]) {
                    let w = choose|w: int| 0 <= w < j + 1 && #[trigger] kv.take(j + 1)[w] == kv[i as int];
                    if w < j { assert(kv.take(j as int)[w] == kv[i as int]); }
                }
                if kv.take(j as int).contains(kv[i as int]) {
                    let w = choose|w: int| 0 <= w < j && #[trigger] kv.take(j as int)[w] == kv[i as int];
                    assert(kv.take(j + 1)[w] == kv[i as int]);
                }
                if kv[j as int] == kv[i as int] {
                    assert(kv.take(j + 1)[j as int] == kv[i as int]);
                }
            }
            if same {
                seen = true;
            }
            j = j + 1;
        }
        assert(rv.take(i + 1).drop_last() =~= rv.take(i as int));
        let ghost before = out.deep_view();
        if !seen {
            out.push(roots[i].clone());
            assert(out.deep_view() =~= before.push(rv[i as int]));
        }
        i = i + 1;
    }
    assert(rv.take(i as int) =~= rv);
    out
}

/// The directory of the pinned justfile: its parent, `.` when it has none.
pub open spec fn parent_or_dot(p: Option<Seq<char>>) -> Seq<char> {
    match p {
        Some(q) => if q.len() > 0 { q } else { "."@ },
        None => "."@,
    }
}

/// Roots to walk before removing duplicates: the given directory, then
/// the pinned justfile's directory, or the current directory when neither
/// is given.
pub open spec fn root_candidates(path: Option<Seq<char>>, jf_dir: Option<Seq<char>>) -> Seq<Seq<char>> {
    let a: Seq<Seq<char>> = match path { Some(p) => seq![p], None => Seq::empty() };
    let b: Seq<Seq<char>> = match jf_dir { Some(d) => seq![d], None => Seq::empty() };
    if a.len() + b.len() == 0 { seq!["."@] } else { a + b }
}

fn dot() -> (r: String)
    ensures
        r@ == "."@,
{
    let mut s = String::new();
    crate::text::push_str(&mut s, ".");
    s
}

/// `a` is what `absolutize` may give for `p`: `p` itself, or its absolute
/// form (for a relative `p`, ending with `p` in normal form).
pub open spec fn absolutized(p: Seq<char>, a: Seq<char>) -> bool {
    a == p || absolute_form(p, a)
}

/// The roots for a pinned justfile that absolutizes to `a`, before duplicates go.
pub open spec fn pinned_candidates(path: Option<Seq<char>>, a: Seq<char>) -> Seq<Seq<char>> {
    root_candidates(path, Some(parent_or_dot(std_path_parent(a))))
}

/// The directories to walk for `opts`: the given path, then the directory
/// of the pinned justfile once made absolute (`.` when it has none), or `.`
/// when neither is given; roots whose absolute forms are equal are walked
/// once, the first kept. The absolute forms depend on the working
/// directory, so they appear only as what `absolutize` may give.
pub fn walk_roots(opts: &DiscoverOptions) -> (r: Vec<String>)
    ensures
        opts.justfile is None ==> r.deep_view() == root_candidates(opts.path.deep_view(), None),
        opts.justfile matches Some(jf) ==> exists|a: Seq<char>, keys: Seq<Seq<char>>| {
            &&& absolutized(jf@, a)
            &&& keys.len() == pinned_candidates(opts.path.deep_view(), a).len()
            &&& forall|i: int| 0 <= i < keys.len()
                ==> absolutized(pinned_candidates(opts.path.deep_view(), a)[i], #[trigger] keys[i])
            &&& r.deep_view() == first_by_key(pinned_candidates(opts.path.deep_view(), a), keys)
        },
{
    let mut roots: Vec<String> = Vec::new();
    if let Some(p) = &opts.path {
        roots.push(p.clone());
    }
    let ghost mut jf_dir: Option<Seq<char>> = None;
    let ghost mut jf_abs: Seq<char> = Seq::empty();
    if let Some(jf) = &opts.justfile {
        let abs = absolutize(jf);
        proof { jf_abs = abs@; }
        let parent = match path_parent(abs.as_str()) {
            Some(q) => if crate::text::chars_of(q.as_str()).len() > 0 { q } else { dot() },
            None => dot(),
        };
        proof { jf_dir = Some(parent@); }
        roots.push(parent);
    }
    if roots.len() == 0 {
        roots.push(dot());
    }
    assert(roots.deep_view() =~= root_candidates(opts.path.deep_view(), jf_dir));
    let mut keys: Vec<String> = Vec::new();
    let mut i: usize = 0;
    while i < roots.len()
        invariant
            i <= roots.len(),
            keys.len() == i,
            forall|k: int| 0 <= k < i ==> absolutized(roots@[k]@, #[trigger] keys@[k]@),
        decreases roots.len() - i,
    {
        keys.push(absolutize(&roots[i]));
        i = i + 1;
    }
    let ghost cands = roots.deep_view();
    let r = dedup_by_keys(roots, &keys);
    proof {
        if opts.justfile is None {
            assert(cands.len() == 1);
            reveal_with_fuel(first_by_key, 2);
            assert(keys.deep_view().take(0) =~= Seq::<Seq<char>>::empty());
            assert(first_by_key(cands, keys.deep_view()) =~= cands);
        } else {
            let kv = keys.deep_view();
            assert(jf_dir == Some(parent_or_dot(std_path_parent(jf_abs))));
            assert(cands == pinned_candidates(opts.path.deep_view(), jf_abs));
            assert(forall|k: int| 0 <= k < kv.len() ==> absolutized(cands[k], #[trigger] kv[k]));
            assert(r.deep_view() == first_by_key(pinned_candidates(opts.path.deep_view(), jf_abs), kv));
        }
    }
    r
}

} // verus!

verus! {

/// Paths in strictly increasing order, compared component by component
/// (`/` before any other character).
pub open spec fn paths_sorted(xs: Seq<Seq<char>>) -> bool {
    sorted_by(xs, true)
}

/// `x` is among the first `n` paths of `w`.
pub open spec fn found_in(w: Seq<Seq<char>>, n: int, x: Seq<char>) -> bool {
    exists|b: int| 0 <= b < n && b < w.len() && w[b] == x
}

/// `x` is among the paths of the first `n` walks.
pub open spec fn found_before(walked: Seq<Seq<Seq<char>>>, n: int, x: Seq<char>) -> bool {
    exists|a: int| 0 <= a < n && #[trigger] found_in(walked[a], walked[a].len() as int, x)
}

/// Every path found by the walks, plus the pinned justfile.
pub open spec fn planned_paths(walked: Seq<Seq<Seq<char>>>, pinned: Option<Seq<char>>) -> Set<Seq<char>> {
    let found = Set::new(|x: Seq<char>| found_before(walked, walked.len() as int, x));
    match pinned {
        Some(p) => found.insert(p),
        None => found,
    }
}

/// The justfiles to dump: the paths of all walks and the pinned justfile,
/// without repeats, sorted as paths sort.
pub fn plan_paths(walked: &Vec<Vec<String>>, pinned: &Option<String>) -> (r: Vec<String>)
    ensures
        paths_sorted(r.deep_view()),
        r.deep_view().to_set() == planned_paths(walked@.map_values(|w: Vec<String>| w.deep_view()), pinned.deep_view()),
{
    let ghost wv = walked@.map_values(|w: Vec<String>| w.deep_view());
    let mut out: Vec<String> = Vec::new();
    assert(out.deep_view().to_set() =~= Set::new(|x: Seq<char>| found_before(wv, 0, x)));
    let mut i: usize = 0;
    while i < walked.len()
        invariant
            i <= walked.len(),
            wv == walked@.map_values(|w: Vec<String>| w.deep_view()),
            paths_sorted(out.deep_view()),
            out.deep_view().to_set() == Set::new(|x: Seq<char>| found_before(wv, i as int, x)),
        decreases walked.len() - i,
    {
        let ghost w = wv[i as int];
        assert(w == walked@[i as int].deep_view());
        assert(out.deep_view().to_set() =~= Set::new(|x: Seq<char>| found_before(wv, i as int, x) || found_in(w, 0, x)));
        let mut j: usize = 0;
        while j < walked[i].len()
            invariant
                i < walked.len(),
                j <= walked[i as int].len(),
                w == walked@[i as int].deep_view(),
                wv == walked@.map_values(|w: Vec<String>| w.deep_view()),
                paths_sorted(out.deep_view()),
                out.deep_view().to_set() == Set::new(|x: Seq<char>| found_before(wv, i as int, x) || found_in(w, j as int, x)),
            decreases walked[i as int].len() - j,
        {
            insert_sorted_unique(&mut out, &walked[i][j], true);
            assert(w[j as int] == walked[i as int]@[j as int]@);
            assert forall|x: Seq<char>| #[trigger] found_in(w, j + 1, x) == (found_in(w, j as int, x) || x == w[j as int]) by {
                if found_in(w, j + 1, x) {
                    let b = choose|b: int| 0 <= b < j + 1 && b < w.len() && w[b] == x;
                    if b < j { assert(0 <= b < j && b < w.len() && w[b] == x); }
                }
                if x == w[j as int] { assert(0 <= j < j + 1 && j < w.len() && w[j as int] == x); }
                if found_in(w, j as int, x) {
                    let b = choose|b: int| 0 <= b < j && b < w.len() && w[b] == x;
                    assert(0 <= b < j + 1 && b < w.len() && w[b] == x);
                }
            }
            j = j + 1;
            assert(out.deep_view().to_set() =~= Set::new(|x: Seq<char>| found_before(wv, i as int, x) || found_in(w, j as int, x)));
        }
        assert forall|x: Seq<char>| #[trigger] found_before(wv, i + 1, x) == (found_before(wv, i as int, x) || found_in(w, j as int, x)) by {
            assert(w.len() == j);
            if found_before(wv, i + 1, x) {
                let a = choose|a: int| 0 <= a < i + 1 && #[trigger] found_in(wv[a], wv[a].len() as int, x);
                if a < i { assert(0 <= a < i && found_in(wv[a], wv[a].len() as int, x)); }
            }
            if found_in(w, j as int, x) {
                assert(0 <= i < i + 1 && found_in(wv[i as int], wv[i as int].len() as int, x));
            }
            if found_before(wv, i as int, x) {
                let a = choose|a: int| 0 <= a < i && #[trigger] found_in(wv[a], wv[a].len() as int, x);
                assert(0 <= a < i + 1 && found_in(wv[a], wv[a].len() as int, x));
            }
        }
        i = i + 1;
        assert(out.deep_view().to_set() =~= Set::new(|x: Seq<char>| found_before(wv, i as int, x)));
    }
    match pinned {
        Some(p) => insert_sorted_unique(&mut out, p, true),
        None => {},
    }
    assert(out.deep_view().to_set() =~= planned_paths(wv, pinned.deep_view()));
    out
}

} // verus!

verus! {

/// The group names of the recipes in order of first appearance.
pub open spec fn first_groups(rs: Seq<RecipeView>) -> Seq<Seq<char>>
    decreases rs.len(),
{
    if rs.len() == 0 {
        Seq::empty()
    } else {
        let rest = first_groups(rs.drop_last());
        match rs.last().group {
            Some(g) => if rest.contains(g) { rest } else { rest.push(g) },
            None => rest,
        }
    }
}

fn contains_text(xs: &Vec<String>, x: &String) -> (r: bool)
    ensures
        r == xs.deep_view().contains(x@),
{
    let mut i: usize = 0;
    while i < xs.len()
        invariant
            i <= xs.len(),
            forall|k: int| 0 <= k < i ==> xs.deep_view()[k] != x@,
        decreases xs.len() - i,
    {
        if same_text(xs[i].as_str(), x.as_str()) {
            assert(xs.deep_view()[i as int] == x@);
            return true;
        }
        i = i + 1;
    }
    false
}

/// The groups of a justfile, in the order recipes first name them.
pub fn collect_groups(recipes: &Vec<Recipe>) -> (r: Vec<String>)
    ensures
        r.deep_view() == first_groups(rviews(recipes@)),
{
    let ghost rv = rviews(recipes@);
    let mut groups: Vec<String> = Vec::new();
    let mut i: usize = 0;
    assert(rv.take(0) =~= Seq::<RecipeView>::empty());
    while i < recipes.len()
        invariant
            i <= recipes.len(),
            rv == rviews(recipes@),
            groups.deep_view() == first_groups(rv.take(i as int)),
        decreases recipes.len() - i,
    {
        assert(rv.take(i + 1).drop_last() =~= rv.take(i as int));
        assert(rv.take(i + 1).last() == recipes@[i as int]@);
        if let Some(g) = &recipes[i].group {
            if !contains_text(&groups, g) {
                let ghost before = groups.deep_view();
                groups.push(g.clone());
                assert(groups.deep_view() =~= before.push(g@));
            }
        }
        i = i + 1;
    }
    assert(rv.take(i as int) =~= rv);
    groups
}

/// The justfile at `path` from the outcome of `just --dump`: its exit
/// status, exit code (if any) and output.
pub fn justfile_from_dump(path: &String, success: bool, code: Option<i32>, stdout: &str, stderr: &str) -> (r: Result<Justfile, Error>)
    ensures
        !success ==> (r matches Err(Error::JustDump { path: p, code: c, stderr: e })
            && p@ == path@ && e@ == stderr@ && c == match code { Some(k) => k, None => -1i32 }),
        success ==> match parse_dump_with_path_result(stdout@) {
            Err(m) => (r matches Err(Error::JustDumpParse { path: p, message }) && p@ == path@ && message@ == m),
            Ok(mp) => (r matches Ok(jf) && jf.path@ == path@
                && crate::discovery::parse::lists_recipes(rviews(jf.recipes@), mp)
                && jf.groups.deep_view() == first_groups(rviews(jf.recipes@))),
        },
{
    if !success {
        return Err(Error::JustDump {
            path: path.clone(),
            code: match code { Some(k) => k, None => -1 },
            stderr: crate::discovery::parse::text(stderr),
        });
    }
    let recipes = parse_dump_with_path(stdout, path)?;
    let groups = collect_groups(&recipes);
    Ok(Justfile { path: path.clone(), recipes, groups })
}

/// What the dump text gives: the recipes by name, or the parse error.
pub open spec fn parse_dump_with_path_result(json: Seq<char>) -> Result<vstd::map::Map<Seq<char>, Option<RecipeView>>, Seq<char>> {
    match crate::discovery::json::serde_json_reading(json) {
        Err(m) => Err(m),
        Ok(v) => crate::discovery::parse::dump_map(v),
    }
}

/// Position of the first justfile at `pin`.
pub open spec fn pin_index(js: Seq<JustfileView>, pin: Seq<char>) -> Option<int> {
    if exists|i: int| 0 <= i < js.len() && js[i].path == pin {
        Some(choose|i: int| 0 <= i < js.len() && js[i].path == pin && forall|k: int| 0 <= k < i ==> js[k].path != pin)
    } else {
        None
    }
}

/// The justfiles among the dump outcomes, in order.
pub open spec fn ok_justfiles(os: Seq<(String, Result<Justfile, Error>)>) -> Seq<JustfileView>
    decreases os.len(),
{
    if os.len() == 0 {
        Seq::empty()
    } else {
        let rest = ok_justfiles(os.drop_last());
        match os.last().1 {
            Ok(j) => rest.push(j@),
            Err(_) => rest,
        }
    }
}

/// The failed paths among the dump outcomes, each with its error text.
pub open spec fn failures(os: Seq<(String, Result<Justfile, Error>)>) -> Seq<(Seq<char>, Seq<char>)>
    decreases os.len(),
{
    if os.len() == 0 {
        Seq::empty()
    } else {
        let rest = failures(os.drop_last());
        match os.last().1 {
            Ok(_) => rest,
            Err(e) => rest.push((os.last().0@, error_text(&e))),
        }
    }
}

fn pin_position(js: &Vec<Justfile>, pin: &String) -> (r: Option<usize>)
    ensures
        r == match pin_index(jviews(js@), pin@) {
            Some(i) => Some(i as usize),
            None => None::<usize>,
        },
{
    let ghost jv = jviews(js@);
    let mut i: usize = 0;
    while i < js.len()
        invariant
            i <= js.len(),
            jv == jviews(js@),
            forall|k: int| 0 <= k < i ==> jv[k].path != pin@,
        decreases js.len() - i,
    {
        if same_text(js[i].path.as_str(), pin.as_str()) {
            assert(jv[i as int].path == pin@);
            let ghost c = choose|c: int| 0 <= c < jv.len() && jv[c].path == pin@ && forall|k: int| 0 <= k < c ==> jv[k].path != pin@;
            assert(c == i) by {
                if c < i { assert(jv[c].path != pin@); }
                if i < c { assert(jv[i as int].path != pin@); }
            }
            return Some(i);
        }
        i = i + 1;
    }
    None
}

/// Gathers the dumped justfiles (in path order) and the failures with
/// their text, and pre-selects the pinned justfile (index 0 when it is
/// not among them).
pub fn finish_discovery(outcomes: Vec<(String, Result<Justfile, Error>)>, pinned: &Option<String>) -> (r: DiscoveryResult)
    ensures
        jviews(r.justfiles@) == ok_justfiles(outcomes@),
        r.errors.deep_view() == failures(outcomes@),
        r.active_index == match pinned {
            Some(p) => match pin_index(jviews(r.justfiles@), p@) {
                Some(i) => i as usize,
                None => 0usize,
            },
            None => 0usize,
        },
{
    let ghost all = outcomes@;
    let mut rest = outcomes;
    let mut justfiles: Vec<Justfile> = Vec::new();
    let mut errors: Vec<(String, String)> = Vec::new();
    let ghost mut done: int = 0;
    assert(all.take(0) =~= Seq::<(String, Result<Justfile, Error>)>::empty());
    assert(rest@ =~= all.skip(0));
    while rest.len() > 0
        invariant
            0 <= done <= all.len(),
            rest@ == all.skip(done),
            jviews(justfiles@) == ok_justfiles(all.take(done)),
            errors.deep_view() == failures(all.take(done)),
        decreases rest.len(),
    {
        let ghost before = rest@;
        let (path, res) = rest.remove(0);
        assert(all.take(done + 1).drop_last() =~= all.take(done));
        assert(all.take(done + 1).last() == before[0]);
        match res {
            Ok(j) => {
                let ghost jb = jviews(justfiles@);
                justfiles.push(j);
                assert(jviews(justfiles@) =~= jb.push(j@));
            },
            Err(e) => {
                let ghost eb = errors.deep_view();
                let m = e.message();
                errors.push((path, m));
                assert(errors.deep_view() =~= eb.push((before[0].0@, error_text(&e))));
            },
        }
        proof { done = done + 1; }
        assert(rest@ =~= all.skip(done));
    }
    assert(all.take(done) =~= all);
    let active_index = match pinned {
        Some(p) => match pin_position(&justfiles, p) {
            Some(i) => i,
            None => 0,
        },
        None => 0,
    };
    DiscoveryResult { justfiles, errors, active_index }
}

} // verus!
