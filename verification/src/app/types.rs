//! Plain data shared by discovery, the reducer and the renderers.
use vstd::prelude::*;

verus! {

pub type SessionId = u64;

/// One justfile and the recipes `just --dump` reported for it.
pub struct Justfile {
    pub path: String,
    pub recipes: Vec<Recipe>,
    /// Declaration-ordered list of group names.
    pub groups: Vec<String>,
}

pub struct Recipe {
    pub name: String,
    pub modules: Vec<String>,
    pub group: Option<String>,
    pub params: Vec<Param>,
    pub doc: Option<String>,
    pub command_preview: String,
    /// Ids of the sessions spawned for this recipe, oldest first.
    pub runs: Vec<SessionId>,
    pub dependencies: Vec<String>,
}

pub struct Param {
    pub name: String,
    pub default: Option<String>,
    pub kind: ParamKind,
}

#[derive(Debug, Clone, Copy, PartialEq, Eq, Structural)]
pub enum ParamKind {
    Positional,
    Variadic,
}

#[derive(Debug, Clone, Copy, PartialEq, Eq, Structural)]
pub enum Status {
    Running,
    ShellAfterExit { code: i32 },
    Exited { code: i32 },
    Broken,
}

#[derive(Debug, Clone, Copy, PartialEq, Eq, Structural)]
pub enum Focus {
    List,
    Preview,
    Session,
    Modal,
}

/// Whether the recipe list shows the active justfile only or every
/// discovered justfile under its own header.
#[derive(Debug, Clone, Copy, PartialEq, Eq, Structural)]
pub enum ListMode {
    Active,
    All,
}

#[derive(Debug, Clone, Copy, PartialEq, Eq, Structural)]
pub enum ConfirmAction {
    QuitKillAll,
    KillSession(SessionId),
    CloseSession(SessionId),
}

/// Sections of the help modal; also names the context the help was opened from.
#[derive(Debug, Clone, Copy, PartialEq, Eq, Structural)]
pub enum SectionId {
    ListFocus,
    SessionFocus,
    Filter,
    Dropdown,
    Param,
    Confirm,
    Errors,
    HelpItself,
}

pub enum Mode {
    Normal,
    FilterInput,
    ParamInput { recipe_idx: usize, values: Vec<String>, cursor: usize },
    Dropdown { filter: String, cursor: usize },
    Help { scroll: u16, origin: SectionId },
    Confirm { prompt: String, on_accept: ConfirmAction },
    ErrorsList,
    ThemePicker { original_name: String, highlighted: usize, names: Vec<String> },
}

pub struct SessionMeta {
    pub id: SessionId,
    pub recipe_name: String,
    /// Human-readable recipe invocation (`just --justfile <p> <recipe> <args>`).
    pub command_line: String,
    pub status: Status,
    pub unread: bool,
    pub log_path: String,
    pub pid: Option<u32>,
}

// ---------------------------------------------------------------- views

pub struct ParamView {
    pub name: Seq<char>,
    pub default: Option<Seq<char>>,
    pub kind: ParamKind,
}

pub struct RecipeView {
    pub name: Seq<char>,
    pub modules: Seq<Seq<char>>,
    pub group: Option<Seq<char>>,
    pub params: Seq<ParamView>,
    pub doc: Option<Seq<char>>,
    pub command_preview: Seq<char>,
    pub runs: Seq<SessionId>,
    pub dependencies: Seq<Seq<char>>,
}

pub struct JustfileView {
    pub path: Seq<char>,
    pub recipes: Seq<RecipeView>,
    pub groups: Seq<Seq<char>>,
}

pub struct SessionMetaView {
    pub id: SessionId,
    pub recipe_name: Seq<char>,
    pub command_line: Seq<char>,
    pub status: Status,
    pub unread: bool,
    pub log_path: Seq<char>,
    pub pid: Option<u32>,
}

pub enum ModeView {
    Normal,
    FilterInput,
    ParamInput { recipe_idx: usize, values: Seq<Seq<char>>, cursor: usize },
    Dropdown { filter: Seq<char>, cursor: usize },
    Help { scroll: u16, origin: SectionId },
    Confirm { prompt: Seq<char>, on_accept: ConfirmAction },
    ErrorsList,
    ThemePicker { original_name: Seq<char>, highlighted: usize, names: Seq<Seq<char>> },
}

impl View for Param {
    type V = ParamView;

    open spec fn view(&self) -> ParamView {
        ParamView { name: self.name@, default: self.default.deep_view(), kind: self.kind }
    }
}

impl View for Recipe {
    type V = RecipeView;

    open spec fn view(&self) -> RecipeView {
        RecipeView {
            name: self.name@,
            modules: self.modules.deep_view(),
            group: self.group.deep_view(),
            params: self.params@.map_values(|p: Param| p@),
            doc: self.doc.deep_view(),
            command_preview: self.command_preview@,
            runs: self.runs@,
            dependencies: self.dependencies.deep_view(),
        }
    }
}

impl View for Justfile {
    type V = JustfileView;

    open spec fn view(&self) -> JustfileView {
        JustfileView {
            path: self.path@,
            recipes: self.recipes@.map_values(|r: Recipe| r@),
            groups: self.groups.deep_view(),
        }
    }
}

impl View for SessionMeta {
    type V = SessionMetaView;

    open spec fn view(&self) -> SessionMetaView {
        SessionMetaView {
            id: self.id,
            recipe_name: self.recipe_name@,
            command_line: self.command_line@,
            status: self.status,
            unread: self.unread,
            log_path: self.log_path@,
            pid: self.pid,
        }
    }
}

impl View for Mode {
    type V = ModeView;

    open spec fn view(&self) -> ModeView {
        match self {
            Mode::Normal => ModeView::Normal,
            Mode::FilterInput => ModeView::FilterInput,
            Mode::ParamInput { recipe_idx, values, cursor } => ModeView::ParamInput {
                recipe_idx: *recipe_idx,
                values: values.deep_view(),
                cursor: *cursor,
            },
            Mode::Dropdown { filter, cursor } => ModeView::Dropdown { filter: filter@, cursor: *cursor },
            Mode::Help { scroll, origin } => ModeView::Help { scroll: *scroll, origin: *origin },
            Mode::Confirm { prompt, on_accept } => ModeView::Confirm {
                prompt: prompt@,
                on_accept: *on_accept,
            },
            Mode::ErrorsList => ModeView::ErrorsList,
            Mode::ThemePicker { original_name, highlighted, names } => ModeView::ThemePicker {
                original_name: original_name@,
                highlighted: *highlighted,
                names: names.deep_view(),
            },
        }
    }
}

} // verus!
