//! The keybinding reference shown in the help modal.
use vstd::prelude::*;
use crate::app::types::SectionId;
use crate::text::{chars_of, push_char, push_str};

verus! {

pub struct Entry {
    pub keys: &'static str,
    pub desc: &'static str,
}

pub struct Section {
    pub id: SectionId,
    pub title: &'static str,
    pub entries: Vec<Entry>,
}

fn e(keys: &'static str, desc: &'static str) -> (r: Entry)
    ensures
        r.keys == keys && r.desc == desc,
{
    Entry { keys, desc }
}

/// The section order of the help modal.
pub open spec fn section_order() -> Seq<SectionId> {
    seq![SectionId::ListFocus, SectionId::SessionFocus, SectionId::Filter, SectionId::Dropdown,
        SectionId::Param, SectionId::Confirm, SectionId::Errors, SectionId::HelpItself]
}

pub open spec fn section_ids(secs: Seq<Section>) -> Seq<SectionId> {
    secs.map_values(|s: Section| s.id)
}

/// The help content: one section per context, each with its keys.
pub fn sections() -> (r: Vec<Section>)
    ensures
        section_ids(r@) == section_order(),
{
    let list_focus = vec![
        e("j / k, ↓ / ↑", "move cursor within recipes list"),
        e("h / l, ← / →", "cycle through the recipe's previous run sessions"),
        e("Enter", "run recipe — if a session is already running for it, jump there"),
        e("Shift+Enter / r", "always spawn a new session (never reuse)"),
        e("/", "enter fuzzy-filter mode"),
        e("Esc", "clear the filter"),
        e("d", "open justfile-switcher dropdown"),
        e("Tab", "cycle focus between list and session pane"),
        e("K", "kill the focused session (confirms)"),
        e("x", "close the focused session (confirms)"),
        e("Ctrl+o / Ctrl+i", "jump to next / previous session with unread output"),
        e("L", "copy the focused session's log path"),
        e("> / < / =", "grow / shrink / reset the left pane width"),
        e("t", "open the theme picker"),
        e("F1 / ?", "open this help"),
        e("e", "open the startup-errors modal"),
        e("q", "quit — confirms if sessions are running"),
    ];
    let session_focus = vec![
        e("F12 / Ctrl+g", "return focus to the recipes list"),
        e("PgUp / PgDn", "scroll session output up / down"),
        e("Home / End", "jump to top / bottom of scrollback"),
        e("(all other keys)", "forwarded to the running shell as typed input"),
        e("F1", "open help (globally intercepted; does not reach the shell)"),
    ];
    let filter = vec![
        e("a–z, 0–9, …", "extend the filter pattern"),
        e("Backspace", "remove last character"),
        e("Enter", "commit filter and return to list"),
        e("Esc", "discard filter and return to list"),
    ];
    let dropdown = vec![
        e("a–z, …", "filter the justfile list"),
        e("j / k, ↑ / ↓", "move cursor"),
        e("Enter", "select justfile"),
        e("Esc", "cancel"),
    ];
    let param = vec![
        e("a–z, 0–9, …", "edit the current parameter"),
        e("Backspace", "remove last character"),
        e("Tab", "move to next parameter"),
        e("Enter", "commit all parameters and spawn the recipe"),
        e("Esc", "cancel"),
    ];
    let confirm = vec![
        e("y / Enter", "confirm"),
        e("n / c / Esc", "cancel"),
    ];
    let errors = vec![e("Esc / q / e", "close")];
    let help = vec![
        e("j / k, ↑ / ↓", "scroll by one line"),
        e("PgUp / PgDn", "scroll by ten lines"),
        e("Home / End", "jump to top / bottom"),
        e("Esc / q / ? / F1", "close"),
    ];
    let r = vec![
        Section { id: SectionId::ListFocus, title: "List focus", entries: list_focus },
        Section { id: SectionId::SessionFocus, title: "Session focus", entries: session_focus },
        Section { id: SectionId::Filter, title: "Filter mode (after /)", entries: filter },
        Section { id: SectionId::Dropdown, title: "Justfile dropdown (after d)", entries: dropdown },
        Section { id: SectionId::Param, title: "Param input (modal)", entries: param },
        Section { id: SectionId::Confirm, title: "Confirm prompt (K / x / q on running sessions)", entries: confirm },
        Section { id: SectionId::Errors, title: "Errors list (after e)", entries: errors },
        Section { id: SectionId::HelpItself, title: "Help (this modal)", entries: help },
    ];
    assert(section_ids(r@) =~= section_order());
    r
}

/// One line of the help text.
pub enum HelpLine {
    Blank,
    /// A section title; `active` for the section of the context the help
    /// was opened from (drawn with a `▸ ` marker).
    Title { active: bool, title: &'static str },
    /// A key (padded to twenty columns) and what it does.
    Item { keys: String, desc: &'static str },
}

pub enum HelpLineView {
    Blank,
    Title { active: bool, title: Seq<char> },
    Item { keys: Seq<char>, desc: Seq<char> },
}

impl View for HelpLine {
    type V = HelpLineView;

    open spec fn view(&self) -> HelpLineView {
        match self {
            HelpLine::Blank => HelpLineView::Blank,
            HelpLine::Title { active, title } => HelpLineView::Title { active: *active, title: title@ },
            HelpLine::Item { keys, desc } => HelpLineView::Item { keys: keys@, desc: desc@ },
        }
    }
}

/// What is drawn before a section title: `▸ ` on the marked one.
pub fn title_marker(active: bool) -> (r: &'static str)
    ensures
        r@ == (if active { "▸ "@ } else { "  "@ }),
{
    if active { "▸ " } else { "  " }
}

/// `s` padded with spaces to `width` characters (`{:<width}`).
pub open spec fn pad_right(s: Seq<char>, width: nat) -> Seq<char> {
    if s.len() >= width { s } else { s + Seq::new((width - s.len()) as nat, |i: int| ' ') }
}

pub fn pad_to(s: &str, width: usize) -> (r: String)
    ensures
        r@ == pad_right(s@, width as nat),
{
    let n = chars_of(s).len();
    let mut r = String::new();
    push_str(&mut r, s);
    let mut k: usize = n;
    while k < width
        invariant
            n == s@.len(),
            n <= k <= width || (n >= width && k == n),
            r@ == s@ + Seq::new((k - n) as nat, |i: int| ' '),
        decreases width - k,
    {
        push_char(&mut r, ' ');
        k = k + 1;
        assert(r@ =~= s@ + Seq::new((k - n) as nat, |i: int| ' '));
    }
    assert(n >= width ==> r@ =~= s@);
    assert(n < width ==> k == width);
    r
}

/// The title lines of the help text, in order: which section each heads
/// and whether it is marked.
pub open spec fn title_marks(secs: Seq<Section>, origin: SectionId) -> Seq<bool> {
    secs.map_values(|s: Section| s.id == origin)
}

/// The line of one key: the keys padded to twenty columns, then what they do.
pub open spec fn entry_line(e: Entry) -> HelpLineView {
    HelpLineView::Item { keys: pad_right(e.keys@, 20), desc: e.desc@ }
}

/// A section's lines: its title (marked when it is the `origin` section),
/// then one line per key.
pub open spec fn section_lines(sec: Section, origin: SectionId) -> Seq<HelpLineView> {
    seq![HelpLineView::Title { active: sec.id == origin, title: sec.title@ }]
        + sec.entries@.map_values(|e: Entry| entry_line(e))
}

/// The help text: the sections' lines in order, a blank line between two
/// sections.
pub open spec fn help_lines_spec(secs: Seq<Section>, origin: SectionId) -> Seq<HelpLineView>
    decreases secs.len(),
{
    if secs.len() == 0 {
        Seq::empty()
    } else {
        let head = help_lines_spec(secs.drop_last(), origin);
        (if secs.len() > 1 { head.push(HelpLineView::Blank) } else { head })
            + section_lines(secs.last(), origin)
    }
}

/// Builds the help text: sections apart by a blank line, each a title
/// (marked when it is the `origin` section) then its keys.
pub fn help_lines(secs: &Vec<Section>, origin: SectionId) -> (r: (Vec<HelpLine>, Vec<bool>))
    ensures
        r.0@.map_values(|l: HelpLine| l@) == help_lines_spec(secs@, origin),
        r.1@ == title_marks(secs@, origin),
{
    let mut out: Vec<HelpLine> = Vec::new();
    let mut marks: Vec<bool> = Vec::new();
    let mut i: usize = 0;
    assert(secs@.take(0) =~= Seq::<Section>::empty());
    while i < secs.len()
        invariant
            i <= secs.len(),
            marks@ == title_marks(secs@, origin).take(i as int),
            out@.map_values(|l: HelpLine| l@) == help_lines_spec(secs@.take(i as int), origin),
        decreases secs.len() - i,
    {
        let ghost prev = help_lines_spec(secs@.take(i as int), origin);
        assert(secs@.take(i + 1).drop_last() =~= secs@.take(i as int));
        assert(secs@.take(i + 1).last() == secs@[i as int]);
        if i > 0 {
            out.push(HelpLine::Blank);
        }
        let ghost base = out@.map_values(|l: HelpLine| l@);
        assert(base =~= (if i + 1 > 1 { prev.push(HelpLineView::Blank) } else { prev }));
        let active = secs[i].id == origin;
        out.push(HelpLine::Title { active, title: secs[i].title });
        marks.push(active);
        let ghost ents = secs@[i as int].entries@.map_values(|e: Entry| entry_line(e));
        let mut j: usize = 0;
        while j < secs[i].entries.len()
            invariant
                i < secs.len(),
                j <= secs[i as int].entries.len(),
                ents == secs@[i as int].entries@.map_values(|e: Entry| entry_line(e)),
                out@.map_values(|l: HelpLine| l@) == base
                    + seq![HelpLineView::Title { active: secs@[i as int].id == origin, title: secs@[i as int].title@ }]
                    + ents.take(j as int),
            decreases secs[i as int].entries.len() - j,
        {
            let ent = &secs[i].entries[j];
            let ghost before = out@.map_values(|l: HelpLine| l@);
            out.push(HelpLine::Item { keys: pad_to(ent.keys, 20), desc: ent.desc });
            assert(ents.take(j + 1) =~= ents.take(j as int).push(ents[j as int]));
            assert(out@.map_values(|l: HelpLine| l@) =~= before.push(ents[j as int]));
            j = j + 1;
        }
        assert(ents.take(j as int) =~= ents);
        i = i + 1;
        assert(out@.map_values(|l: HelpLine| l@) =~= help_lines_spec(secs@.take(i as int), origin));
        assert(marks@ =~= title_marks(secs@, origin).take(i as int));
    }
    assert(secs@.take(i as int) =~= secs@);
    assert(title_marks(secs@, origin).take(i as int) =~= title_marks(secs@, origin));
    (out, marks)
}

/// How far the help text scrolls: the requested offset, at most so far
/// that the last line sits at the bottom of a modal `area_height` rows
/// tall (two rows of border); the line count is taken as a `u16`.
pub open spec fn help_scroll_spec(scroll: u16, line_count: usize, area_height: u16) -> u16 {
    let inner: int = if area_height < 2 { 0 } else { area_height - 2 };
    let n: int = (line_count as u16) as int;
    let max: int = if n < inner { 0 } else { n - inner };
    if scroll < max { scroll } else { max as u16 }
}

pub fn help_scroll(scroll: u16, line_count: usize, area_height: u16) -> (r: u16)
    ensures
        r == help_scroll_spec(scroll, line_count, area_height),
{
    let inner: u16 = if area_height < 2 { 0 } else { area_height - 2 };
    let n: u16 = line_count as u16;
    let max: u16 = if n < inner { 0 } else { n - inner };
    if scroll < max { scroll } else { max }
}

/// Every context has exactly one section, so the help text marks exactly
/// one title, whichever context it was opened from.
pub proof fn law_help_marks_one_section(secs: Seq<Section>, origin: SectionId)
    requires
        section_ids(secs) == section_order(),
    ensures
        exists|i: int| 0 <= i < secs.len() && title_marks(secs, origin)[i]
            && forall|j: int| 0 <= j < secs.len() && j != i ==> !title_marks(secs, origin)[j],
{
    let o = section_order();
    let i: int = match origin {
        SectionId::ListFocus => 0,
        SectionId::SessionFocus => 1,
        SectionId::Filter => 2,
        SectionId::Dropdown => 3,
        SectionId::Param => 4,
        SectionId::Confirm => 5,
        SectionId::Errors => 6,
        SectionId::HelpItself => 7,
    };
    assert(o.len() == 8);
    assert(section_ids(secs).len() == secs.len());
    assert(secs.len() == 8);
    assert(section_ids(secs)[i] == secs[i].id);
    assert(secs[i].id == origin);
    assert(title_marks(secs, origin)[i]);
    assert forall|j: int| 0 <= j < secs.len() && j != i implies !title_marks(secs, origin)[j] by {
        assert(section_ids(secs)[j] == secs[j].id);
        assert(secs[j].id == o[j]);
    }
}


/// A title line drawn with the `▸ ` marker.
pub open spec fn is_marked(l: HelpLineView) -> bool {
    l matches HelpLineView::Title { active: true, .. }
}

/// How many lines of `ls` carry the marker.
pub open spec fn marked_count(ls: Seq<HelpLineView>) -> nat
    decreases ls.len(),
{
    if ls.len() == 0 {
        0
    } else {
        marked_count(ls.drop_last()) + if is_marked(ls.last()) { 1nat } else { 0nat }
    }
}

/// How many times `o` occurs in `ids`.
pub open spec fn count_id(ids: Seq<SectionId>, o: SectionId) -> nat
    decreases ids.len(),
{
    if ids.len() == 0 {
        0
    } else {
        count_id(ids.drop_last(), o) + if ids.last() == o { 1nat } else { 0nat }
    }
}

proof fn lemma_marked_concat(a: Seq<HelpLineView>, b: Seq<HelpLineView>)
    ensures
        marked_count(a + b) == marked_count(a) + marked_count(b),
    decreases b.len(),
{
    if b.len() > 0 {
        lemma_marked_concat(a, b.drop_last());
        assert((a + b).drop_last() =~= a + b.drop_last());
    } else {
        assert(a + b =~= a);
    }
}

proof fn lemma_entries_unmarked(es: Seq<Entry>)
    ensures
        marked_count(es.map_values(|e: Entry| entry_line(e))) == 0,
    decreases es.len(),
{
    if es.len() > 0 {
        lemma_entries_unmarked(es.drop_last());
        assert(es.map_values(|e: Entry| entry_line(e)).drop_last() =~= es.drop_last().map_values(|e: Entry| entry_line(e)));
    }
}

proof fn lemma_marked_lines(secs: Seq<Section>, o: SectionId)
    ensures
        marked_count(help_lines_spec(secs, o)) == count_id(section_ids(secs), o),
    decreases secs.len(),
{
    if secs.len() > 0 {
        let head = help_lines_spec(secs.drop_last(), o);
        lemma_marked_lines(secs.drop_last(), o);
        assert(section_ids(secs).drop_last() =~= section_ids(secs.drop_last()));
        let sec = secs.last();
        let title = seq![HelpLineView::Title { active: sec.id == o, title: sec.title@ }];
        let ents = sec.entries@.map_values(|e: Entry| entry_line(e));
        lemma_entries_unmarked(sec.entries@);
        lemma_marked_concat(title, ents);
        assert(marked_count(title) == (if sec.id == o { 1nat } else { 0nat })) by {
            assert(title.drop_last() =~= Seq::<HelpLineView>::empty());
            assert(marked_count(title.drop_last()) == 0);
            assert(title.last() == HelpLineView::Title { active: sec.id == o, title: sec.title@ });
        }
        let h2 = if secs.len() > 1 { head.push(HelpLineView::Blank) } else { head };
        assert(marked_count(h2) == marked_count(head)) by {
            if secs.len() > 1 {
                assert(head.push(HelpLineView::Blank).drop_last() =~= head);
            }
        }
        lemma_marked_concat(h2, section_lines(sec, o));
    }
}

/// The help text draws the `▸ ` marker on exactly one line, whichever
/// context it was opened from: every context has exactly one section.
pub proof fn law_help_text_marks_one_line(secs: Seq<Section>, origin: SectionId)
    requires
        section_ids(secs) == section_order(),
    ensures
        marked_count(help_lines_spec(secs, origin)) == 1,
{
    lemma_marked_lines(secs, origin);
    reveal_with_fuel(count_id, 9);
    let o = section_order();
    assert(o.drop_last().drop_last().drop_last().drop_last().drop_last().drop_last().drop_last().drop_last()
        =~= Seq::<SectionId>::empty());
}

} // verus!
