//! Settings: built-in defaults overlaid with the user's config file.
pub mod paths;
pub mod writer;

use vstd::prelude::*;
use crate::app::types::ListMode;
use crate::config::paths::{join_path, join_spec};
use crate::discovery::json::same_text;
use crate::discovery::parse::text;
use crate::theme::DEFAULT_THEME_NAME;
use crate::ui::icon_style::{IconStyle, parse_icon_style};

verus! {

pub struct Config {
    /// Root directory for persistent state (the app log lives here).
    pub state_dir: String,
    /// Directory for per-session raw PTY logs.
    pub sessions_log_dir: String,
    /// Max bytes written per session log file.
    pub session_log_size_cap: u64,
    /// Session log directories older than this many seconds are pruned.
    pub session_log_retention_secs: u64,
    /// Default left-pane width, in percent of the terminal width.
    pub default_split_ratio: u16,
    pub min_left_cols: u16,
    pub min_right_cols: u16,
    /// Below this size the UI shows a "terminal too small" screen.
    pub terminal_floor_cols: u16,
    pub terminal_floor_rows: u16,
    /// Minimum time between frames, in milliseconds.
    pub render_throttle_ms: u64,
    /// Interval of the tick that polls child exit status, in milliseconds.
    pub tick_interval_ms: u64,
    /// Theme name: a built-in or user theme.
    pub theme_name: String,
    pub icon_style: IconStyle,
    pub list_mode: ListMode,
}

/// The config file: every section and key optional, unknown ones ignored.
pub struct ConfigFile {
    pub ui: Option<UiSection>,
    pub paths: Option<PathsSection>,
    pub logging: Option<LoggingSection>,
    pub engine: Option<EngineSection>,
}

pub struct PathsSection {
    pub state_dir: Option<String>,
    pub sessions_log_dir: Option<String>,
}

pub struct LoggingSection {
    pub session_log_size_cap_mb: Option<u64>,
    pub session_log_retention_days: Option<u64>,
}

pub struct EngineSection {
    pub render_throttle_ms: Option<u64>,
    pub tick_interval_ms: Option<u64>,
}

pub struct UiSection {
    pub theme: Option<String>,
    pub icon_style: Option<String>,
    pub list_mode: Option<String>,
}

impl ConfigFile {
    /// A file with no sections.
    pub fn empty() -> (r: ConfigFile)
        ensures
            r.ui is None && r.paths is None && r.logging is None && r.engine is None,
    {
        ConfigFile { ui: None, paths: None, logging: None, engine: None }
    }
}

pub open spec fn sat_mul(a: u64, b: u64) -> u64 {
    if a * b > u64::MAX { u64::MAX } else { (a * b) as u64 }
}

/// The list layout a config value names.
pub open spec fn parse_list_mode(s: Seq<char>) -> Option<ListMode> {
    if s == "active"@ { Some(ListMode::Active) } else if s == "all"@ { Some(ListMode::All) } else { None }
}

pub fn list_mode_of(s: &str) -> (r: Option<ListMode>)
    ensures
        r == parse_list_mode(s@),
{
    if same_text(s, "active") {
        Some(ListMode::Active)
    } else if same_text(s, "all") {
        Some(ListMode::All)
    } else {
        None
    }
}

/// The built-in settings; state lives in `lazyjust` under `state_base`
/// (the platform's state directory), or under `.` when there is none.
pub fn defaults_with(state_base: Option<String>) -> (c: Config)
    ensures
        c.state_dir@ == join_spec(match state_base { Some(b) => b@, None => "."@ }, "lazyjust"@),
        c.sessions_log_dir@ == join_spec(c.state_dir@, "sessions"@),
        c.session_log_size_cap == 10 * 1024 * 1024,
        c.session_log_retention_secs == 7 * 24 * 3600,
        c.default_split_ratio == 30,
        c.min_left_cols == 20,
        c.min_right_cols == 40,
        c.terminal_floor_cols == 40,
        c.terminal_floor_rows == 10,
        c.render_throttle_ms == 16,
        c.tick_interval_ms == 250,
        c.theme_name@ == DEFAULT_THEME_NAME@,
        c.icon_style == IconStyle::Round,
        c.list_mode == ListMode::Active,
{
    let base = match state_base {
        Some(b) => b,
        None => text("."),
    };
    let state_dir = join_path(base.as_str(), "lazyjust");
    let sessions_log_dir = join_path(state_dir.as_str(), "sessions");
    Config {
        state_dir,
        sessions_log_dir,
        session_log_size_cap: 10 * 1024 * 1024,
        session_log_retention_secs: 7 * 24 * 3600,
        default_split_ratio: 30,
        min_left_cols: 20,
        min_right_cols: 40,
        terminal_floor_cols: 40,
        terminal_floor_rows: 10,
        render_throttle_ms: 16,
        tick_interval_ms: 250,
        theme_name: text(DEFAULT_THEME_NAME),
        icon_style: IconStyle::Round,
        list_mode: ListMode::Active,
    }
}

/// Overlays the values the file sets onto `base`: paths as given, the log
/// cap from MiB to bytes and the retention from days to seconds (both
/// saturating), engine timings, and the theme, icon style and list layout
/// (names that do not parse leave the setting as it was).
pub fn merge(file: ConfigFile, base: Config) -> (c: Config)
    ensures
        c.state_dir@ == (match file.paths { Some(p) => match p.state_dir { Some(d) => d@, None => base.state_dir@ }, None => base.state_dir@ }),
        c.sessions_log_dir@ == (match file.paths { Some(p) => match p.sessions_log_dir { Some(d) => d@, None => base.sessions_log_dir@ }, None => base.sessions_log_dir@ }),
        c.session_log_size_cap == (match file.logging { Some(l) => match l.session_log_size_cap_mb { Some(mb) => sat_mul(mb, 1048576u64), None => base.session_log_size_cap }, None => base.session_log_size_cap }),
        c.session_log_retention_secs == (match file.logging { Some(l) => match l.session_log_retention_days { Some(d) => sat_mul(d, 86400u64), None => base.session_log_retention_secs }, None => base.session_log_retention_secs }),
        c.render_throttle_ms == (match file.engine { Some(e) => match e.render_throttle_ms { Some(v) => v, None => base.render_throttle_ms }, None => base.render_throttle_ms }),
        c.tick_interval_ms == (match file.engine { Some(e) => match e.tick_interval_ms { Some(v) => v, None => base.tick_interval_ms }, None => base.tick_interval_ms }),
        c.theme_name@ == (match file.ui { Some(u) => match u.theme { Some(t) => t@, None => base.theme_name@ }, None => base.theme_name@ }),
        c.icon_style == (match file.ui { Some(u) => match u.icon_style { Some(s) => match parse_icon_style(s@) { Some(st) => st, None => base.icon_style }, None => base.icon_style }, None => base.icon_style }),
        c.list_mode == (match file.ui { Some(u) => match u.list_mode { Some(s) => match parse_list_mode(s@) { Some(m) => m, None => base.list_mode }, None => base.list_mode }, None => base.list_mode }),
        c.default_split_ratio == base.default_split_ratio,
        c.min_left_cols == base.min_left_cols,
        c.min_right_cols == base.min_right_cols,
        c.terminal_floor_cols == base.terminal_floor_cols,
        c.terminal_floor_rows == base.terminal_floor_rows,
{
    let mut out = base;
    if let Some(p) = file.paths {
        if let Some(d) = p.state_dir {
            out.state_dir = d;
        }
        if let Some(d) = p.sessions_log_dir {
            out.sessions_log_dir = d;
        }
    }
    if let Some(l) = file.logging {
        if let Some(mb) = l.session_log_size_cap_mb {
            out.session_log_size_cap = match mb.checked_mul(1048576) { Some(v) => v, None => u64::MAX };
        }
        if let Some(days) = l.session_log_retention_days {
            out.session_log_retention_secs = match days.checked_mul(86400) { Some(v) => v, None => u64::MAX };
        }
    }
    if let Some(e) = file.engine {
        if let Some(ms) = e.render_throttle_ms {
            out.render_throttle_ms = ms;
        }
        if let Some(ms) = e.tick_interval_ms {
            out.tick_interval_ms = ms;
        }
    }
    if let Some(u) = file.ui {
        if let Some(t) = u.theme {
            out.theme_name = t;
        }
        if let Some(s) = u.icon_style {
            if let Some(st) = IconStyle::parse(s.as_str()) {
                out.icon_style = st;
            }
        }
        if let Some(s) = u.list_mode {
            if let Some(m) = list_mode_of(s.as_str()) {
                out.list_mode = m;
            }
        }
    }
    out
}

} // verus!
