//! The lines of the recipe list: section headers and recipe rows, in the
//! order the filter ranks them, with the cursor row marked.
use vstd::prelude::*;
use crate::app::filter::{fuzzy_match, fuzzy_spec};
use crate::app::state::{App, AppView};
use crate::app::types::{ListMode, Recipe, RecipeView, SessionId, Status};
use crate::app::view::{RowRef, recipe_positions};
use crate::text::{ascii_upper_seq, chars_of, push_char, push_str, to_ascii_upper};
use crate::ui::icon_style::{Glyphs, IconStyle};
use crate::ui::path_relativize::{relativize_spec, relativize_to_root};

verus! {

pub enum ListLine {
    Header { label: String },
    Row { jf_idx: usize, recipe_idx: usize, cursor: bool },
}

pub enum ListLineView {
    Header { label: Seq<char> },
    Row { jf_idx: usize, recipe_idx: usize, cursor: bool },
}

impl View for ListLine {
    type V = ListLineView;

    open spec fn view(&self) -> ListLineView {
        match self {
            ListLine::Header { label } => ListLineView::Header { label: label@ },
            ListLine::Row { jf_idx, recipe_idx, cursor } => ListLineView::Row { jf_idx: *jf_idx, recipe_idx: *recipe_idx, cursor: *cursor },
        }
    }
}

/// Every row of the list view points at an existing justfile and recipe.
pub open spec fn rows_valid(s: AppView) -> bool {
    forall|i: int| 0 <= i < s.rows.len() ==> match #[trigger] s.rows[i] {
        RowRef::Header { jf_idx } => jf_idx < s.justfiles.len(),
        RowRef::Recipe { jf_idx, recipe_idx } => jf_idx < s.justfiles.len() && recipe_idx < s.justfiles[jf_idx as int].recipes.len(),
    }
}

pub open spec fn recipe_of(s: AppView, p: (usize, usize)) -> RecipeView {
    s.justfiles[p.0 as int].recipes[p.1 as int]
}

/// The recipe names in row order.
pub open spec fn row_names(s: AppView) -> Seq<Seq<char>> {
    recipe_positions(s.rows).map_values(|p: (usize, usize)| recipe_of(s, p).name)
}

/// The recipes the filter keeps, best match first.
pub open spec fn shown(s: AppView) -> Seq<(usize, usize)> {
    let pos = recipe_positions(s.rows);
    fuzzy_spec(row_names(s), s.filter).map_values(|m: (usize, u32)| pos[m.0 as int])
}

/// The row the cursor is on: the list cursor, kept on the last shown row.
pub open spec fn selected_row(s: AppView) -> int {
    let n = shown(s).len();
    let last = if n == 0 { 0 } else { n - 1 };
    if s.list_cursor < last { s.list_cursor as int } else { last }
}

/// Active mode: a header whenever the group changes (upper-cased, `RECIPES`
/// for recipes without one; none before leading ungrouped recipes).
pub open spec fn active_lines(s: AppView, items: Seq<(usize, usize)>, i: int, sel: int, cur: Option<Seq<char>>) -> Seq<ListLineView>
    decreases items.len() - i,
{
    if i < 0 || i >= items.len() {
        Seq::empty()
    } else {
        let p = items[i];
        let g = recipe_of(s, p).group;
        let head: Seq<ListLineView> = if g != cur {
            seq![ListLineView::Header { label: ascii_upper_seq(match g { Some(n) => n, None => "RECIPES"@ }) }]
        } else {
            Seq::empty()
        };
        head + seq![ListLineView::Row { jf_idx: p.0, recipe_idx: p.1, cursor: i == sel }]
            + active_lines(s, items, i + 1, sel, g)
    }
}

/// The justfiles in the order of their headers in the view.
pub open spec fn header_order(rows: Seq<RowRef>) -> Seq<usize>
    decreases rows.len(),
{
    if rows.len() == 0 {
        Seq::empty()
    } else {
        let rest = header_order(rows.drop_last());
        match rows.last() {
            RowRef::Header { jf_idx } => rest.push(jf_idx),
            _ => rest,
        }
    }
}

/// The shown recipes of justfile `jf`, in filter order.
pub open spec fn items_of(items: Seq<(usize, usize)>, jf: usize) -> Seq<(usize, usize)>
    decreases items.len(),
{
    if items.len() == 0 {
        Seq::empty()
    } else {
        let rest = items_of(items.drop_last(), jf);
        if items.last().0 == jf { rest.push(items.last()) } else { rest }
    }
}

/// All mode: per justfile (in view order) that keeps any recipe, a header
/// with its path relative to the discovery root, then its recipes.
pub open spec fn all_lines(s: AppView, hs: Seq<usize>, h: int, items: Seq<(usize, usize)>, sel: int, emitted: int) -> Seq<ListLineView>
    decreases hs.len() - h,
{
    if h < 0 || h >= hs.len() {
        Seq::empty()
    } else {
        let g = items_of(items, hs[h]);
        if g.len() == 0 {
            all_lines(s, hs, h + 1, items, sel, emitted)
        } else {
            seq![ListLineView::Header { label: relativize_spec(s.justfiles[hs[h] as int].path, s.discovery_root) }]
                + Seq::new(g.len(), |i: int| ListLineView::Row { jf_idx: g[i].0, recipe_idx: g[i].1, cursor: emitted + i == sel })
                + all_lines(s, hs, h + 1, items, sel, emitted + g.len())
        }
    }
}

pub open spec fn list_lines_spec(s: AppView) -> Seq<ListLineView> {
    match s.list_mode {
        ListMode::All => all_lines(s, header_order(s.rows), 0, shown(s), selected_row(s), 0),
        ListMode::Active => active_lines(s, shown(s), 0, selected_row(s), None),
    }
}

} // verus!

verus! {

/// The `(justfile, recipe)` pairs of the recipe rows, in row order.
fn positions_of(rows: &Vec<RowRef>) -> (r: Vec<(usize, usize)>)
    ensures
        r@ == recipe_positions(rows@),
{
    let mut r: Vec<(usize, usize)> = Vec::new();
    let mut i: usize = 0;
    assert(rows@.take(0) =~= Seq::<RowRef>::empty());
    while i < rows.len()
        invariant
            i <= rows.len(),
            r@ == recipe_positions(rows@.take(i as int)),
        decreases rows.len() - i,
    {
        assert(rows@.take(i + 1).drop_last() =~= rows@.take(i as int));
        match rows[i] {
            RowRef::Recipe { jf_idx, recipe_idx } => {
                r.push((jf_idx, recipe_idx));
            },
            RowRef::Header { .. } => {},
        }
        i = i + 1;
    }
    assert(rows@.take(i as int) =~= rows@);
    r
}

proof fn lemma_positions_valid(s: AppView)
    requires
        rows_valid(s),
    ensures
        forall|k: int| 0 <= k < recipe_positions(s.rows).len() ==>
            (#[trigger] recipe_positions(s.rows)[k]).0 < s.justfiles.len()
            && recipe_positions(s.rows)[k].1 < s.justfiles[recipe_positions(s.rows)[k].0 as int].recipes.len(),
{
    lemma_positions_valid_rows(s, s.rows.len() as int);
    assert(s.rows.take(s.rows.len() as int) =~= s.rows);
}

proof fn lemma_positions_valid_rows(s: AppView, n: int)
    requires
        rows_valid(s),
        0 <= n <= s.rows.len(),
    ensures
        forall|k: int| 0 <= k < recipe_positions(s.rows.take(n)).len() ==>
            (#[trigger] recipe_positions(s.rows.take(n))[k]).0 < s.justfiles.len()
            && recipe_positions(s.rows.take(n))[k].1 < s.justfiles[recipe_positions(s.rows.take(n))[k].0 as int].recipes.len(),
    decreases n,
{
    if n > 0 {
        lemma_positions_valid_rows(s, n - 1);
        let t = s.rows.take(n);
        assert(t.drop_last() =~= s.rows.take(n - 1));
        assert(t.last() == s.rows[n - 1]);
        let prev = recipe_positions(s.rows.take(n - 1));
        match s.rows[n - 1] {
            RowRef::Recipe { jf_idx, recipe_idx } => {
                assert(recipe_positions(t) == prev.push((jf_idx, recipe_idx)));
                assert forall|k: int| 0 <= k < recipe_positions(t).len() implies
                    (#[trigger] recipe_positions(t)[k]).0 < s.justfiles.len()
                    && recipe_positions(t)[k].1 < s.justfiles[recipe_positions(t)[k].0 as int].recipes.len() by {
                    if k < prev.len() { assert(recipe_positions(t)[k] == prev[k]); }
                }
            },
            RowRef::Header { .. } => {
                assert(recipe_positions(t) == prev);
            },
        }
    } else {
        assert(s.rows.take(n).len() == 0);
    }
}

/// The recipes the filter keeps, best match first.
pub fn shown_positions(app: &App) -> (r: Vec<(usize, usize)>)
    requires
        rows_valid(app@),
    ensures
        r@ == shown(app@),
        forall|k: int| 0 <= k < r@.len() ==> (#[trigger] r@[k]).0 < app@.justfiles.len()
            && r@[k].1 < app@.justfiles[r@[k].0 as int].recipes.len(),
{
    let pos = positions_of(&app.view.rows);
    proof { lemma_positions_valid(app@); }
    let mut names: Vec<&str> = Vec::new();
    let mut i: usize = 0;
    while i < pos.len()
        invariant
            i <= pos.len(),
            pos@ == recipe_positions(app@.rows),
            forall|k: int| 0 <= k < pos@.len() ==> (#[trigger] pos@[k]).0 < app@.justfiles.len()
                && pos@[k].1 < app@.justfiles[pos@[k].0 as int].recipes.len(),
            crate::app::filter::str_views(names@) == row_names(app@).take(i as int),
        decreases pos.len() - i,
    {
        let (j, k) = pos[i];
        let n = app.justfiles[j].recipes[k].name.as_str();
        let ghost before = names@;
        names.push(n);
        assert(crate::app::filter::str_views(names@) =~= crate::app::filter::str_views(before).push(n@));
        i = i + 1;
        assert(crate::app::filter::str_views(names@) =~= row_names(app@).take(i as int));
    }
    assert(row_names(app@).take(i as int) =~= row_names(app@));
    let scored = fuzzy_match(names.as_slice(), app.filter.as_str());
    let mut out: Vec<(usize, usize)> = Vec::new();
    let mut m: usize = 0;
    while m < scored.len()
        invariant
            m <= scored.len(),
            pos@ == recipe_positions(app@.rows),
            pos@.len() == names@.len(),
            forall|k: int| 0 <= k < pos@.len() ==> (#[trigger] pos@[k]).0 < app@.justfiles.len()
                && pos@[k].1 < app@.justfiles[pos@[k].0 as int].recipes.len(),
            crate::app::filter::is_fuzzy_result(crate::app::filter::str_views(names@), app.filter@, scored@),
            out@ == scored@.take(m as int).map_values(|x: (usize, u32)| pos@[x.0 as int]),
        decreases scored.len() - m,
    {
        let idx = scored[m].0;
        proof {
            if app.filter@.len() == 0 {
                assert(scored@[m as int] == (m, 0u32));
            } else {
                assert(scored@[m as int].0 < crate::app::filter::str_views(names@).len());
            }
        }
        out.push(pos[idx]);
        m = m + 1;
        assert(out@ =~= scored@.take(m as int).map_values(|x: (usize, u32)| pos@[x.0 as int]));
    }
    assert(scored@.take(m as int) =~= scored@);
    out
}

} // verus!

verus! {

fn active_list(app: &App, items: &Vec<(usize, usize)>, sel: usize) -> (r: Vec<ListLine>)
    requires
        forall|k: int| 0 <= k < items@.len() ==> (#[trigger] items@[k]).0 < app@.justfiles.len()
            && items@[k].1 < app@.justfiles[items@[k].0 as int].recipes.len(),
    ensures
        r@.map_values(|l: ListLine| l@) == active_lines(app@, items@, 0, sel as int, None),
{
    let mut out: Vec<ListLine> = Vec::new();
    let mut cur: Option<&String> = None;
    let mut i: usize = 0;
    while i < items.len()
        invariant
            i <= items.len(),
            forall|k: int| 0 <= k < items@.len() ==> (#[trigger] items@[k]).0 < app@.justfiles.len()
                && items@[k].1 < app@.justfiles[items@[k].0 as int].recipes.len(),
            out@.map_values(|l: ListLine| l@) + active_lines(app@, items@, i as int, sel as int, cur.deep_view())
                == active_lines(app@, items@, 0, sel as int, None),
        decreases items.len() - i,
    {
        let (j, k) = items[i];
        let r = &app.justfiles[j].recipes[k];
        let g: Option<&String> = match &r.group {
            Some(n) => Some(n),
            None => None,
        };
        assert(g.deep_view() == recipe_of(app@, items@[i as int]).group);
        let changed = match (g, cur) {
            (Some(a), Some(b)) => !crate::discovery::json::same_text(a.as_str(), b.as_str()),
            (None, None) => false,
            _ => true,
        };
        assert(changed == (g.deep_view() != cur.deep_view()));
        let ghost before = out@.map_values(|l: ListLine| l@);
        let ghost rest = active_lines(app@, items@, i + 1, sel as int, g.deep_view());
        if changed {
            let label = match g {
                Some(n) => to_ascii_upper(n.as_str()),
                None => to_ascii_upper("RECIPES"),
            };
            out.push(ListLine::Header { label });
        }
        out.push(ListLine::Row { jf_idx: j, recipe_idx: k, cursor: i == sel });
        assert(out@.map_values(|l: ListLine| l@) + rest =~= before + active_lines(app@, items@, i as int, sel as int, cur.deep_view()));
        cur = g;
        i = i + 1;
    }
    assert(out@.map_values(|l: ListLine| l@) + Seq::empty() =~= out@.map_values(|l: ListLine| l@));
    out
}

fn headers_of(rows: &Vec<RowRef>) -> (r: Vec<usize>)
    ensures
        r@ == header_order(rows@),
{
    let mut r: Vec<usize> = Vec::new();
    let mut i: usize = 0;
    assert(rows@.take(0) =~= Seq::<RowRef>::empty());
    while i < rows.len()
        invariant
            i <= rows.len(),
            r@ == header_order(rows@.take(i as int)),
        decreases rows.len() - i,
    {
        assert(rows@.take(i + 1).drop_last() =~= rows@.take(i as int));
        match rows[i] {
            RowRef::Header { jf_idx } => {
                r.push(jf_idx);
            },
            RowRef::Recipe { .. } => {},
        }
        i = i + 1;
    }
    assert(rows@.take(i as int) =~= rows@);
    r
}

fn select_items(items: &Vec<(usize, usize)>, jf: usize) -> (r: Vec<(usize, usize)>)
    ensures
        r@ == items_of(items@, jf),
{
    let mut r: Vec<(usize, usize)> = Vec::new();
    let mut i: usize = 0;
    assert(items@.take(0) =~= Seq::<(usize, usize)>::empty());
    while i < items.len()
        invariant
            i <= items.len(),
            r@ == items_of(items@.take(i as int), jf),
        decreases items.len() - i,
    {
        assert(items@.take(i + 1).drop_last() =~= items@.take(i as int));
        if items[i].0 == jf {
            r.push(items[i]);
        }
        i = i + 1;
    }
    assert(items@.take(i as int) =~= items@);
    r
}

fn all_list(app: &App, items: &Vec<(usize, usize)>, sel: usize) -> (r: Vec<ListLine>)
    requires
        rows_valid(app@),
    ensures
        r@.map_values(|l: ListLine| l@) == all_lines(app@, header_order(app@.rows), 0, items@, sel as int, 0),
{
    let hs = headers_of(&app.view.rows);
    proof { lemma_headers_valid(app@, app@.rows.len() as int); assert(app@.rows.take(app@.rows.len() as int) =~= app@.rows); }
    let mut out: Vec<ListLine> = Vec::new();
    let mut emitted: u128 = 0;
    let mut h: usize = 0;
    while h < hs.len()
        invariant
            h <= hs.len(),
            hs@ == header_order(app@.rows),
            forall|k: int| 0 <= k < hs@.len() ==> #[trigger] hs@[k] < app@.justfiles.len(),
            emitted <= h * (usize::MAX as int),
            out@.map_values(|l: ListLine| l@) + all_lines(app@, hs@, h as int, items@, sel as int, emitted as int)
                == all_lines(app@, hs@, 0, items@, sel as int, 0),
        decreases hs.len() - h,
    {
        let g = select_items(items, hs[h]);
        let ghost before = out@.map_values(|l: ListLine| l@);
        if g.len() > 0 {
            proof {
                lemma_items_of_len(items@, hs@[h as int]);
                assert(emitted + g@.len() <= (h + 1) * (usize::MAX as int)) by (nonlinear_arith)
                    requires emitted <= h * (usize::MAX as int), g@.len() <= usize::MAX;
                assert((h + 1) * (usize::MAX as int) <= u128::MAX) by (nonlinear_arith)
                    requires h < usize::MAX, usize::MAX <= u64::MAX;
            }
            let label = relativize_to_root(app.justfiles[hs[h]].path.as_str(), app.discovery_root.as_str());
            out.push(ListLine::Header { label });
            let mut t: usize = 0;
            let ghost head = out@.map_values(|l: ListLine| l@);
            while t < g.len()
                invariant
                    t <= g.len(),
                    emitted + g.len() <= u128::MAX,
                    out@.map_values(|l: ListLine| l@) == head
                        + Seq::new(t as nat, |i: int| ListLineView::Row { jf_idx: g@[i].0, recipe_idx: g@[i].1, cursor: emitted + i == sel }),
                decreases g.len() - t,
            {
                let ghost before_t = out@.map_values(|l: ListLine| l@);
                let c = emitted + (t as u128) == (sel as u128);
                assert(c == (emitted + t == sel));
                out.push(ListLine::Row { jf_idx: g[t].0, recipe_idx: g[t].1, cursor: c });
                assert(out@.map_values(|l: ListLine| l@) =~= before_t.push(ListLineView::Row { jf_idx: g@[t as int].0, recipe_idx: g@[t as int].1, cursor: emitted + t == sel }));
                t = t + 1;
                assert(out@.map_values(|l: ListLine| l@) =~= head
                    + Seq::new(t as nat, |i: int| ListLineView::Row { jf_idx: g@[i].0, recipe_idx: g@[i].1, cursor: emitted + i == sel }));
            }
            let ghost rest = all_lines(app@, hs@, h + 1, items@, sel as int, emitted + g.len());
            assert(out@.map_values(|l: ListLine| l@) + rest =~= before + all_lines(app@, hs@, h as int, items@, sel as int, emitted as int));
            emitted = emitted + (g.len() as u128);
        } else {
            assert(emitted <= (h + 1) * (usize::MAX as int)) by (nonlinear_arith)
                requires emitted <= h * (usize::MAX as int);
        }
        h = h + 1;
    }
    assert(out@.map_values(|l: ListLine| l@) + Seq::empty() =~= out@.map_values(|l: ListLine| l@));
    out
}

proof fn lemma_items_of_len(items: Seq<(usize, usize)>, jf: usize)
    ensures
        items_of(items, jf).len() <= items.len(),
    decreases items.len(),
{
    if items.len() > 0 {
        lemma_items_of_len(items.drop_last(), jf);
    }
}

proof fn lemma_headers_valid(s: AppView, n: int)
    requires
        rows_valid(s),
        0 <= n <= s.rows.len(),
    ensures
        forall|k: int| 0 <= k < header_order(s.rows.take(n)).len() ==> #[trigger] header_order(s.rows.take(n))[k] < s.justfiles.len(),
    decreases n,
{
    if n > 0 {
        lemma_headers_valid(s, n - 1);
        let t = s.rows.take(n);
        assert(t.drop_last() =~= s.rows.take(n - 1));
        assert(t.last() == s.rows[n - 1]);
        let prev = header_order(s.rows.take(n - 1));
        match s.rows[n - 1] {
            RowRef::Header { jf_idx } => {
                assert(header_order(t) == prev.push(jf_idx));
                assert forall|k: int| 0 <= k < header_order(t).len() implies #[trigger] header_order(t)[k] < s.justfiles.len() by {
                    if k < prev.len() { assert(header_order(t)[k] == prev[k]); }
                }
            },
            RowRef::Recipe { .. } => {
                assert(header_order(t) == prev);
            },
        }
    } else {
        assert(s.rows.take(n).len() == 0);
    }
}

/// The lines of the recipe list: section headers and the recipes the
/// filter keeps, in its order, with the cursor row marked.
pub fn list_lines(app: &App) -> (r: Vec<ListLine>)
    requires
        rows_valid(app@),
    ensures
        r@.map_values(|l: ListLine| l@) == list_lines_spec(app@),
{
    let items = shown_positions(app);
    let n = items.len();
    let last = if n == 0 { 0 } else { n - 1 };
    let sel = if app.list_cursor < last { app.list_cursor } else { last };
    proof {
        let pos = recipe_positions(app@.rows);
        let f = fuzzy_spec(row_names(app@), app@.filter);
        assert(items@.len() == f.len());
    }
    match app.list_mode {
        ListMode::All => all_list(app, &items, sel),
        ListMode::Active => active_list(app, &items, sel),
    }
}

} // verus!

verus! {

/// The glyph before a recipe name: the cursor or unselected glyph of the
/// style; with no glyph style, a plain arrow for the cursor and a space.
pub fn row_glyph(style: IconStyle, cursor: bool) -> (r: &'static str)
    ensures
        style == IconStyle::Blank ==> r@ == (if cursor { "▶"@ } else { " "@ }),
        style != IconStyle::Blank ==> r@ == (if cursor { style.glyphs_spec().2 } else { style.glyphs_spec().0 }),
{
    if style == IconStyle::Blank {
        if cursor { "▶" } else { " " }
    } else {
        let g = style.glyphs();
        if cursor { g.cursor } else { g.unselected }
    }
}

/// How an indicator is coloured.
#[derive(Debug, Clone, Copy, PartialEq, Eq, Structural)]
pub enum Tone {
    Running,
    Success,
    Error,
    Dim,
    Warn,
}

/// One indicator after a recipe name: a run's status, or how many runs
/// are not shown.
#[derive(Debug, Clone, Copy, PartialEq, Eq, Structural)]
pub enum Indicator {
    Run { status: Status, unread: bool },
    More(usize),
}

/// The indicators of a recipe's runs, newest first: up to three runs whose
/// session still exists, then `+N` for the runs beyond three.
pub open spec fn indicators_spec(ss: Seq<crate::app::types::SessionMetaView>, runs: Seq<SessionId>, k: int, emitted: int) -> Seq<Indicator>
    decreases k,
{
    if k <= 0 {
        Seq::empty()
    } else if emitted >= 3 {
        seq![Indicator::More((runs.len() - 3) as usize)]
    } else {
        match crate::app::state::session_index(ss, runs[k - 1]) {
            Some(i) => seq![Indicator::Run { status: ss[i].status, unread: ss[i].unread }]
                + indicators_spec(ss, runs, k - 1, emitted + 1),
            None => indicators_spec(ss, runs, k - 1, emitted),
        }
    }
}

pub fn run_indicators(app: &App, runs: &Vec<SessionId>) -> (r: Vec<Indicator>)
    ensures
        r@ == indicators_spec(app@.sessions, runs@, runs@.len() as int, 0),
{
    let mut out: Vec<Indicator> = Vec::new();
    let mut emitted: usize = 0;
    let mut k: usize = runs.len();
    while k > 0
        invariant
            k <= runs.len(),
            emitted <= 3,
            emitted as int + k <= runs.len(),
            out@ + indicators_spec(app@.sessions, runs@, k as int, emitted as int)
                == indicators_spec(app@.sessions, runs@, runs@.len() as int, 0),
        decreases k,
    {
        if emitted >= 3 {
            let ghost before = out@;
            out.push(Indicator::More(runs.len() - 3));
            assert(out@ =~= before + indicators_spec(app@.sessions, runs@, k as int, emitted as int));
            return out;
        }
        let ghost before = out@;
        match app.session_index(runs[k - 1]) {
            Some(i) => {
                out.push(Indicator::Run { status: app.sessions[i].status, unread: app.sessions[i].unread });
                emitted = emitted + 1;
                assert(out@ + indicators_spec(app@.sessions, runs@, k - 1, emitted as int)
                    =~= before + indicators_spec(app@.sessions, runs@, k as int, (emitted - 1) as int));
            },
            None => {},
        }
        k = k - 1;
    }
    assert(out@ + Seq::<Indicator>::empty() =~= out@);
    out
}

/// The icon and tone of a run's indicator.
pub open spec fn status_icon_spec(status: Status, unread: bool, style: IconStyle) -> (Seq<char>, Tone) {
    match status {
        Status::Running => (if style == IconStyle::Blank { ""@ } else { style.glyphs_spec().1 }, Tone::Running),
        Status::ShellAfterExit { code } => if code == 0 {
            ("✓"@, if unread { Tone::Success } else { Tone::Dim })
        } else {
            ("✗"@, if unread { Tone::Error } else { Tone::Dim })
        },
        Status::Exited { code } => if code == 0 {
            ("✓"@, if unread { Tone::Success } else { Tone::Dim })
        } else {
            ("✗"@, if unread { Tone::Error } else { Tone::Dim })
        },
        Status::Broken => ("!"@, Tone::Warn),
    }
}

pub fn status_icon(status: Status, unread: bool, style: IconStyle) -> (r: (&'static str, Tone))
    ensures
        (r.0@, r.1) == status_icon_spec(status, unread, style),
{
    proof { reveal_strlit(""); }
    match status {
        Status::Running => (if style == IconStyle::Blank { "" } else { style.glyphs().running }, Tone::Running),
        Status::ShellAfterExit { code } | Status::Exited { code } => {
            if code == 0 {
                ("✓", if unread { Tone::Success } else { Tone::Dim })
            } else {
                ("✗", if unread { Tone::Error } else { Tone::Dim })
            }
        },
        Status::Broken => ("!", Tone::Warn),
    }
}

/// Dependency names joined with ` · `.
pub open spec fn join_deps(ds: Seq<Seq<char>>) -> Seq<char>
    decreases ds.len(),
{
    if ds.len() == 0 {
        Seq::empty()
    } else if ds.len() == 1 {
        ds[0]
    } else {
        join_deps(ds.drop_last()) + " · "@ + ds.last()
    }
}

/// The dependency list of a row within `avail` columns: whole when it fits
/// (its length taken as a `u16`), else cut short and ended with `…`.
pub open spec fn dep_line_spec(ds: Seq<Seq<char>>, avail: u16) -> Seq<char> {
    let j = join_deps(ds);
    if ((j.len() as u16) as int) <= avail {
        j
    } else {
        let a1: int = if avail < 1 { 0 } else { avail - 1 };
        let keep: int = if a1 <= 1 { 0 } else if j.len() < a1 - 1 { j.len() as int } else { a1 - 1 };
        j.take(keep) + "…"@
    }
}

pub fn dep_line(deps: &Vec<String>, avail: u16) -> (r: String)
    ensures
        r@ == dep_line_spec(deps.deep_view(), avail),
{
    let ghost dv = deps.deep_view();
    let mut joined = String::new();
    let mut i: usize = 0;
    assert(dv.take(0) =~= Seq::<Seq<char>>::empty());
    while i < deps.len()
        invariant
            i <= deps.len(),
            dv == deps.deep_view(),
            joined@ == join_deps(dv.take(i as int)),
        decreases deps.len() - i,
    {
        assert(dv.take(i + 1).drop_last() =~= dv.take(i as int));
        assert(dv.take(i + 1).last() == deps@[i as int]@);
        if i > 0 {
            push_str(&mut joined, " · ");
        }
        push_str(&mut joined, deps[i].as_str());
        i = i + 1;
        assert(i == 1 ==> dv.take(i as int) =~= seq![dv[0]]);
    }
    assert(dv.take(i as int) =~= dv);
    let cs = chars_of(joined.as_str());
    if (cs.len() as u16) <= avail {
        return joined;
    }
    let a1: u16 = if avail < 1 { 0 } else { avail - 1 };
    let keep: usize = if a1 <= 1 { 0 } else if cs.len() < (a1 - 1) as usize { cs.len() } else { (a1 - 1) as usize };
    let mut r = String::new();
    let mut k: usize = 0;
    while k < keep
        invariant
            k <= keep <= cs.len(),
            r@ == cs@.take(k as int),
        decreases keep - k,
    {
        push_char(&mut r, cs[k]);
        k = k + 1;
        assert(r@ =~= cs@.take(k as int));
    }
    push_str(&mut r, "…");
    r
}

/// The text and width of a section header: ` label ` and a rule filling
/// the rest of the line (the label's length taken as a `u16`).
pub fn section_header(label: &str, width: u16) -> (r: (String, u16))
    ensures
        r.0@ == " "@ + label@ + " "@,
        r.1 == (if ((label@.len() + 2) as u16) > width { 0 } else { (width - ((label@.len() + 2) as u16)) as u16 }),
{
    let mut title = String::new();
    push_str(&mut title, " ");
    push_str(&mut title, label);
    push_str(&mut title, " ");
    let n = chars_of(title.as_str()).len();
    assert(n == label@.len() + 2) by { reveal_strlit(" "); }
    let w = n as u16;
    (title, if w > width { 0 } else { width - w })
}

/// The columns left for a recipe's dependencies: the row's width less what
/// the row already shows, less five for the arrow and its spacing.
pub fn deps_budget(width: u16, used: u16) -> (r: u16)
    ensures
        r == (if width < used + 5 { 0 } else { (width - used - 5) as u16 }),
{
    let rest: u16 = if width < used { 0 } else { width - used };
    if rest < 5 { 0 } else { rest - 5 }
}

} // verus!
