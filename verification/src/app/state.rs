//! Application state driven by the reducer.
use vstd::prelude::*;
use crate::app::types::{
    Focus, Justfile, JustfileView, ListMode, Mode, ModeView, Recipe, SessionId, SessionMeta,
    SessionMetaView,
};
use crate::app::view::{ListView, RowRef, build_rows, jviews, recipe_positions};
use crate::ui::icon_style::IconStyle;

verus! {

pub struct App {
    pub justfiles: Vec<Justfile>,
    pub active_justfile: usize,
    pub filter: String,
    pub list_cursor: usize,
    pub sessions: Vec<SessionMeta>,
    pub active_session: Option<SessionId>,
    pub focus: Focus,
    pub mode: Mode,
    /// Width of the recipe list, in percent of the terminal width.
    pub split_ratio: u16,
    pub theme_name: String,
    pub icon_style: IconStyle,
    pub startup_errors: Vec<(String, String)>,
    pub next_session_id: SessionId,
    pub status_message: Option<String>,
    pub list_mode: ListMode,
    pub discovery_root: String,
    pub view: ListView,
}

pub struct AppView {
    pub justfiles: Seq<JustfileView>,
    pub active_justfile: usize,
    pub filter: Seq<char>,
    pub list_cursor: usize,
    pub sessions: Seq<SessionMetaView>,
    pub active_session: Option<SessionId>,
    pub focus: Focus,
    pub mode: ModeView,
    pub split_ratio: u16,
    pub theme_name: Seq<char>,
    pub icon_style: IconStyle,
    pub startup_errors: Seq<(Seq<char>, Seq<char>)>,
    pub next_session_id: SessionId,
    pub status_message: Option<Seq<char>>,
    pub list_mode: ListMode,
    pub discovery_root: Seq<char>,
    pub rows: Seq<RowRef>,
}

pub open spec fn sviews(ss: Seq<SessionMeta>) -> Seq<SessionMetaView> {
    ss.map_values(|m: SessionMeta| m@)
}

impl View for App {
    type V = AppView;

    open spec fn view(&self) -> AppView {
        AppView {
            justfiles: jviews(self.justfiles@),
            active_justfile: self.active_justfile,
            filter: self.filter@,
            list_cursor: self.list_cursor,
            sessions: sviews(self.sessions@),
            active_session: self.active_session,
            focus: self.focus,
            mode: self.mode@,
            split_ratio: self.split_ratio,
            theme_name: self.theme_name@,
            icon_style: self.icon_style,
            startup_errors: self.startup_errors.deep_view(),
            next_session_id: self.next_session_id,
            status_message: self.status_message.deep_view(),
            list_mode: self.list_mode,
            discovery_root: self.discovery_root@,
            rows: self.view.rows@,
        }
    }
}

/// Index of the first session with id `id`, if any.
pub open spec fn session_index(ss: Seq<SessionMetaView>, id: SessionId) -> Option<int> {
    if exists|i: int| 0 <= i < ss.len() && ss[i].id == id {
        Some(choose|i: int| first_with_id(ss, id, i))
    } else {
        None
    }
}

pub open spec fn first_with_id(ss: Seq<SessionMetaView>, id: SessionId, i: int) -> bool {
    &&& 0 <= i < ss.len()
    &&& ss[i].id == id
    &&& forall|k: int| 0 <= k < i ==> ss[k].id != id
}

/// `session_index` is the first index carrying the id.
pub proof fn lemma_session_index(ss: Seq<SessionMetaView>, id: SessionId, i: int)
    requires
        first_with_id(ss, id, i),
    ensures
        session_index(ss, id) == Some(i),
{
    let j = choose|j: int| first_with_id(ss, id, j);
    assert(first_with_id(ss, id, j));
    if j < i {
        assert(ss[j].id != id);
    }
    if i < j {
        assert(ss[i].id != id);
    }
}

/// The recipe the cursor points at through the list view.
pub open spec fn recipe_at_cursor_spec(s: AppView) -> Option<(usize, usize)> {
    let pos = recipe_positions(s.rows);
    if s.list_cursor < pos.len() {
        let (j, r) = pos[s.list_cursor as int];
        if j < s.justfiles.len() && r < s.justfiles[j as int].recipes.len() {
            Some((j, r))
        } else {
            None
        }
    } else {
        None
    }
}

impl App {
    pub fn new(
        justfiles: Vec<Justfile>,
        startup_errors: Vec<(String, String)>,
        split_ratio: u16,
        theme_name: String,
        icon_style: IconStyle,
        list_mode: ListMode,
        discovery_root: String,
    ) -> (app: App)
        ensures
            app@ == (AppView {
                justfiles: jviews(justfiles@),
                active_justfile: 0,
                filter: Seq::empty(),
                list_cursor: 0,
                sessions: Seq::empty(),
                active_session: None,
                focus: Focus::List,
                mode: ModeView::Normal,
                split_ratio,
                theme_name: theme_name@,
                icon_style,
                startup_errors: startup_errors.deep_view(),
                next_session_id: 1,
                status_message: None,
                list_mode,
                discovery_root: discovery_root@,
                rows: build_rows(jviews(justfiles@), list_mode, 0),
            }),
    {
        let view = ListView::build(&justfiles, list_mode, 0);
        let app = App {
            justfiles,
            active_justfile: 0,
            filter: String::new(),
            list_cursor: 0,
            sessions: Vec::new(),
            active_session: None,
            focus: Focus::List,
            mode: Mode::Normal,
            split_ratio,
            theme_name,
            icon_style,
            startup_errors,
            next_session_id: 1,
            status_message: None,
            list_mode,
            discovery_root,
            view,
        };
        assert(sviews(app.sessions@) =~= Seq::empty());
        app
    }

    pub fn active_justfile(&self) -> (r: Option<&Justfile>)
        ensures
            r == (if self.active_justfile < self.justfiles.len() {
                Some(&self.justfiles@[self.active_justfile as int])
            } else {
                None
            }),
    {
        if self.active_justfile < self.justfiles.len() {
            Some(&self.justfiles[self.active_justfile])
        } else {
            None
        }
    }

    /// Hands out the next session id and advances the counter.
    pub fn next_session_id(&mut self) -> (id: SessionId)
        requires
            old(self).next_session_id < u64::MAX,
        ensures
            id == old(self).next_session_id,
            final(self)@ == (AppView { next_session_id: (id + 1) as u64, ..old(self)@ }),
    {
        let id = self.next_session_id;
        self.next_session_id = id + 1;
        id
    }

    /// The recipe under the list cursor, resolved through the list view.
    pub fn recipe_at_cursor(&self) -> (r: Option<&Recipe>)
        ensures
            r == (match recipe_at_cursor_spec(self@) {
                Some((j, k)) => Some(&self.justfiles@[j as int].recipes@[k as int]),
                None => None,
            }),
    {
        match self.view.recipe_at(self.list_cursor) {
            Some((j, k)) => {
                if j < self.justfiles.len() && k < self.justfiles[j].recipes.len() {
                    Some(&self.justfiles[j].recipes[k])
                } else {
                    None
                }
            },
            None => None,
        }
    }

    /// Position of the first session with id `id`.
    pub fn session_index(&self, id: SessionId) -> (r: Option<usize>)
        ensures
            r matches Some(i) ==> session_index(self@.sessions, id) == Some(i as int)
                && first_with_id(self@.sessions, id, i as int) && i < self.sessions.len(),
            r is None ==> session_index(self@.sessions, id) is None,
    {
        let mut i: usize = 0;
        while i < self.sessions.len()
            invariant
                i <= self.sessions.len(),
                forall|k: int| 0 <= k < i ==> self@.sessions[k].id != id,
            decreases self.sessions.len() - i,
        {
            if self.sessions[i].id == id {
                proof { lemma_session_index(self@.sessions, id, i as int); }
                return Some(i);
            }
            i = i + 1;
        }
        None
    }

    /// The first session with id `id`.
    pub fn session(&self, id: SessionId) -> (r: Option<&SessionMeta>)
        ensures
            r == (match session_index(self@.sessions, id) {
                Some(i) => Some(&self.sessions@[i]),
                None => None,
            }),
    {
        match self.session_index(id) {
            Some(i) => Some(&self.sessions[i]),
            None => None,
        }
    }
}

} // verus!
