//! The right-hand pane: which session it shows, and the preview of the
//! recipe under the cursor when it shows none.
use vstd::prelude::*;
use crate::app::state::{App, AppView, recipe_at_cursor_spec};
use crate::app::types::{Focus, Param, ParamView, Recipe, RecipeView, SessionId};
use crate::text::push_str;

verus! {

/// The session the right pane shows: the focused session while the pane
/// has the focus, otherwise the newest run of the recipe under the cursor.
pub open spec fn displayed_session_spec(s: AppView) -> Option<SessionId> {
    if s.focus == Focus::Session {
        s.active_session
    } else {
        match recipe_at_cursor_spec(s) {
            Some((j, k)) => {
                let runs = s.justfiles[j as int].recipes[k as int].runs;
                if runs.len() > 0 { Some(runs.last()) } else { None }
            },
            None => None,
        }
    }
}

pub fn displayed_session(app: &App) -> (r: Option<SessionId>)
    ensures
        r == displayed_session_spec(app@),
{
    if app.focus == Focus::Session {
        return app.active_session;
    }
    match app.recipe_at_cursor() {
        Some(r) => {
            let n = r.runs.len();
            if n > 0 { Some(r.runs[n - 1]) } else { None }
        },
        None => None,
    }
}

/// One line of the recipe preview, with how it is drawn.
pub enum PreviewLine {
    /// `recipe: <name>`, highlighted.
    Title(String),
    /// The recipe's doc comment, dimmed.
    Doc(String),
    Plain(String),
    /// The closing hint.
    Hint(String),
}

pub enum PreviewLineView {
    Title(Seq<char>),
    Doc(Seq<char>),
    Plain(Seq<char>),
    Hint(Seq<char>),
}

impl View for PreviewLine {
    type V = PreviewLineView;

    open spec fn view(&self) -> PreviewLineView {
        match self {
            PreviewLine::Title(s) => PreviewLineView::Title(s@),
            PreviewLine::Doc(s) => PreviewLineView::Doc(s@),
            PreviewLine::Plain(s) => PreviewLineView::Plain(s@),
            PreviewLine::Hint(s) => PreviewLineView::Hint(s@),
        }
    }
}

/// Index of the first `\n` in `s`, if any.
pub open spec fn first_newline(s: Seq<char>) -> Option<int>
    decreases s.len(),
{
    if s.len() == 0 {
        None
    } else if s[0] == '\n' {
        Some(0)
    } else {
        match first_newline(s.drop_first()) {
            Some(i) => Some(i + 1),
            None => None,
        }
    }
}

/// A line without the `\r` of a `\r\n` ending.
pub open spec fn strip_cr(l: Seq<char>) -> Seq<char> {
    if l.len() > 0 && l.last() == '\r' { l.drop_last() } else { l }
}

/// `str::lines`: the text split after each `\n`, each line without its
/// `\n` (or `\r\n`); no empty line after a final `\n`.
pub open spec fn lines_spec(s: Seq<char>) -> Seq<Seq<char>>
    decreases s.len(),
{
    if s.len() == 0 {
        Seq::empty()
    } else {
        match first_newline(s) {
            Some(i) => if 0 <= i < s.len() {
                seq![strip_cr(s.take(i))] + lines_spec(s.skip(i + 1))
            } else {
                seq![s]
            },
            None => seq![s],
        }
    }
}

proof fn lemma_first_newline(s: Seq<char>)
    ensures
        match first_newline(s) {
            Some(i) => 0 <= i < s.len() && s[i] == '\n' && forall|k: int| 0 <= k < i ==> s[k] != '\n',
            None => forall|k: int| 0 <= k < s.len() ==> s[k] != '\n',
        },
    decreases s.len(),
{
    if s.len() > 0 && s[0] != '\n' {
        lemma_first_newline(s.drop_first());
        assert forall|k: int| 1 <= k < s.len() implies s[k] == s.drop_first()[k - 1] by {}
    }
}

/// The first newline of `s` is at `i` when `s[i]` is one and none comes before.
proof fn lemma_first_newline_at(s: Seq<char>, i: int)
    requires
        0 <= i < s.len(),
        s[i] == '\n',
        forall|k: int| 0 <= k < i ==> s[k] != '\n',
    ensures
        first_newline(s) == Some(i),
    decreases s.len(),
{
    if i > 0 {
        lemma_first_newline_at(s.drop_first(), i - 1);
    }
}

proof fn lemma_no_newline(s: Seq<char>)
    requires
        forall|k: int| 0 <= k < s.len() ==> s[k] != '\n',
    ensures
        first_newline(s) is None,
    decreases s.len(),
{
    if s.len() > 0 {
        lemma_no_newline(s.drop_first());
    }
}

/// The lines of `s`, as `str::lines` gives them.
pub fn text_lines(s: &str) -> (r: Vec<String>)
    ensures
        r.deep_view() == lines_spec(s@),
{
    let cs = crate::text::chars_of(s);
    let ghost sv = s@;
    let mut out: Vec<String> = Vec::new();
    let mut start: usize = 0;
    let mut i: usize = 0;
    assert(sv.skip(0) =~= sv);
    assert(out.deep_view() + lines_spec(sv.skip(0)) =~= lines_spec(sv));
    while i < cs.len()
        invariant
            cs@ == sv,
            start <= i <= cs.len(),
            forall|k: int| start <= k < i ==> sv[k] != '\n',
            out.deep_view() + lines_spec(sv.skip(start as int)) == lines_spec(sv),
        decreases cs.len() - i,
    {
        if cs[i] == '\n' {
            let ghost rest = sv.skip(start as int);
            proof {
                lemma_first_newline_at(rest, i - start);
                assert(rest.take(i - start) =~= sv.subrange(start as int, i as int));
                assert(rest.skip(i - start + 1) =~= sv.skip(i + 1));
            }
            let mut end = i;
            if end > start && cs[end - 1] == '\r' {
                end = end - 1;
            }
            let mut line: Vec<char> = Vec::new();
            let mut k: usize = start;
            while k < end
                invariant
                    start <= k <= end <= i < cs.len(),
                    cs@ == sv,
                    line@ == sv.subrange(start as int, k as int),
                decreases end - k,
            {
                line.push(cs[k]);
                k = k + 1;
                assert(line@ =~= sv.subrange(start as int, k as int));
            }
            assert(line@ == strip_cr(sv.subrange(start as int, i as int))) by {
                let seg = sv.subrange(start as int, i as int);
                if seg.len() > 0 && seg.last() == '\r' {
                    assert(seg.drop_last() =~= sv.subrange(start as int, end as int));
                } else {
                    assert(seg =~= sv.subrange(start as int, end as int));
                }
            }
            let ghost before = out.deep_view();
            out.push(crate::text::string_of(&line));
            assert(out.deep_view() =~= before.push(line@));
            assert(lines_spec(rest) == seq![strip_cr(rest.take(i - start))] + lines_spec(rest.skip(i - start + 1)));
            assert(out.deep_view() + lines_spec(sv.skip(i + 1)) =~= before + lines_spec(rest));
            start = i + 1;
        }
        i = i + 1;
    }
    if start < cs.len() {
        let ghost rest = sv.skip(start as int);
        proof {
            lemma_no_newline(rest);
        }
        let mut line: Vec<char> = Vec::new();
        let mut k: usize = start;
        while k < cs.len()
            invariant
                start <= k <= cs.len(),
                cs@ == sv,
                line@ == sv.subrange(start as int, k as int),
            decreases cs.len() - k,
        {
            line.push(cs[k]);
            k = k + 1;
            assert(line@ =~= sv.subrange(start as int, k as int));
        }
        assert(line@ =~= rest);
        let ghost before = out.deep_view();
        out.push(crate::text::string_of(&line));
        assert(out.deep_view() =~= before.push(rest));
        assert(lines_spec(sv.skip(cs.len() as int)) =~= Seq::<Seq<char>>::empty()) by {
            assert(sv.skip(cs.len() as int).len() == 0);
        }
        assert(out.deep_view() =~= before + lines_spec(rest));
    } else {
        assert(sv.skip(start as int).len() == 0);
        assert(out.deep_view() =~= out.deep_view() + lines_spec(sv.skip(start as int)));
    }
    out
}

/// `  name` or `  name=default` for a parameter.
pub open spec fn param_text(p: ParamView) -> Seq<char> {
    "  "@ + p.name + match p.default { Some(d) => "="@ + d, None => Seq::empty() }
}

/// The preview of a recipe: its name, its doc comment, its parameters (with
/// defaults), its command lines, and how to run it.
pub open spec fn preview_spec(r: RecipeView) -> Seq<PreviewLineView> {
    seq![PreviewLineView::Title("recipe: "@ + r.name)]
        + match r.doc { Some(d) => seq![PreviewLineView::Doc(d)], None => Seq::empty() }
        + (if r.params.len() > 0 {
            seq![PreviewLineView::Plain(Seq::empty()), PreviewLineView::Plain("params:"@)]
                + r.params.map_values(|p: ParamView| PreviewLineView::Plain(param_text(p)))
        } else {
            Seq::empty()
        })
        + seq![PreviewLineView::Plain(Seq::empty()), PreviewLineView::Plain("command:"@)]
        + lines_spec(r.command_preview).map_values(|l: Seq<char>| PreviewLineView::Plain("  "@ + l))
        + seq![PreviewLineView::Plain(Seq::empty()), PreviewLineView::Hint("Enter to run"@)]
}

fn plain(s: &str) -> (r: PreviewLine)
    ensures
        r@ == PreviewLineView::Plain(s@),
{
    let mut t = String::new();
    push_str(&mut t, s);
    PreviewLine::Plain(t)
}

fn push_line(out: &mut Vec<PreviewLine>, l: PreviewLine)
    ensures
        final(out)@.map_values(|x: PreviewLine| x@) == old(out)@.map_values(|x: PreviewLine| x@).push(l@),
{
    let ghost before = out@.map_values(|x: PreviewLine| x@);
    let ghost lv = l@;
    out.push(l);
    assert(out@.map_values(|x: PreviewLine| x@) =~= before.push(lv));
}

fn param_line(p: &Param) -> (r: String)
    ensures
        r@ == param_text(p@),
{
    let mut t = String::new();
    push_str(&mut t, "  ");
    push_str(&mut t, p.name.as_str());
    match &p.default {
        Some(d) => {
            push_str(&mut t, "=");
            push_str(&mut t, d.as_str());
        },
        None => {},
    }
    proof {
        if p.default is None {
            assert(t@ =~= param_text(p@));
        }
    }
    t
}

pub fn preview_lines(r: &Recipe) -> (out: Vec<PreviewLine>)
    ensures
        out@.map_values(|x: PreviewLine| x@) == preview_spec(r@),
{
    let ghost rv = r@;
    proof { reveal_strlit(""); }
    assert(""@ =~= Seq::<char>::empty());
    let mut out: Vec<PreviewLine> = Vec::new();
    let mut title = String::new();
    push_str(&mut title, "recipe: ");
    push_str(&mut title, r.name.as_str());
    push_line(&mut out, PreviewLine::Title(title));
    let ghost head = seq![PreviewLineView::Title("recipe: "@ + rv.name)];
    assert(out@.map_values(|x: PreviewLine| x@) =~= head);
    match &r.doc {
        Some(d) => push_line(&mut out, PreviewLine::Doc(d.clone())),
        None => {},
    }
    let ghost with_doc = head + match rv.doc { Some(d) => seq![PreviewLineView::Doc(d)], None => Seq::<PreviewLineView>::empty() };
    assert(out@.map_values(|x: PreviewLine| x@) =~= with_doc);
    let ghost pv = rv.params.map_values(|p: ParamView| PreviewLineView::Plain(param_text(p)));
    if r.params.len() > 0 {
        push_line(&mut out, plain(""));
        push_line(&mut out, plain("params:"));
        let ghost base = out@.map_values(|x: PreviewLine| x@);
        assert(base =~= with_doc + seq![PreviewLineView::Plain(Seq::empty()), PreviewLineView::Plain("params:"@)]);
        let mut i: usize = 0;
        while i < r.params.len()
            invariant
                i <= r.params.len(),
                rv == r@,
                pv == rv.params.map_values(|p: ParamView| PreviewLineView::Plain(param_text(p))),
                out@.map_values(|x: PreviewLine| x@) == base + pv.take(i as int),
            decreases r.params.len() - i,
        {
            let t = param_line(&r.params[i]);
            push_line(&mut out, PreviewLine::Plain(t));
            assert(pv.take(i + 1) =~= pv.take(i as int).push(pv[i as int]));
            i = i + 1;
        }
        assert(pv.take(i as int) =~= pv);
        assert(out@.map_values(|x: PreviewLine| x@) =~= with_doc
            + (seq![PreviewLineView::Plain(Seq::empty()), PreviewLineView::Plain("params:"@)] + pv));
    } else {
        assert(pv =~= Seq::<PreviewLineView>::empty());
        assert(out@.map_values(|x: PreviewLine| x@) =~= with_doc + Seq::<PreviewLineView>::empty());
    }
    let ghost with_params = with_doc + (if rv.params.len() > 0 {
        seq![PreviewLineView::Plain(Seq::empty()), PreviewLineView::Plain("params:"@)] + pv
    } else {
        Seq::<PreviewLineView>::empty()
    });
    assert(out@.map_values(|x: PreviewLine| x@) == with_params);
    push_line(&mut out, plain(""));
    push_line(&mut out, plain("command:"));
    let ghost with_cmd = with_params + seq![PreviewLineView::Plain(Seq::empty()), PreviewLineView::Plain("command:"@)];
    assert(out@.map_values(|x: PreviewLine| x@) =~= with_cmd);
    let lines = text_lines(r.command_preview.as_str());
    let ghost lv = lines.deep_view().map_values(|l: Seq<char>| PreviewLineView::Plain("  "@ + l));
    let mut i: usize = 0;
    while i < lines.len()
        invariant
            i <= lines.len(),
            lv == lines.deep_view().map_values(|l: Seq<char>| PreviewLineView::Plain("  "@ + l)),
            out@.map_values(|x: PreviewLine| x@) == with_cmd + lv.take(i as int),
        decreases lines.len() - i,
    {
        let mut t = String::new();
        push_str(&mut t, "  ");
        push_str(&mut t, lines[i].as_str());
        push_line(&mut out, PreviewLine::Plain(t));
        assert(lv.take(i + 1) =~= lv.take(i as int).push(lv[i as int]));
        i = i + 1;
    }
    assert(lv.take(i as int) =~= lv);
    push_line(&mut out, plain(""));
    let mut hint = String::new();
    push_str(&mut hint, "Enter to run");
    push_line(&mut out, PreviewLine::Hint(hint));
    assert(out@.map_values(|x: PreviewLine| x@) =~= preview_spec(rv));
    out
}

} // verus!
