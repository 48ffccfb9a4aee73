//! The command line, as parsed for the program.
use vstd::prelude::*;
use crate::discovery::DiscoverOptions;
use crate::text::push_str;

verus! {

pub struct Cli {
    /// Project root to scan; the current directory when omitted.
    pub path: Option<String>,
    /// Pin this justfile as the active one; its directory is walked too.
    pub justfile: Option<String>,
    /// Log verbosity.
    pub log_level: String,
    pub command: Option<Commands>,
}

#[derive(Debug, Clone, Copy, PartialEq, Eq, Structural)]
pub enum Commands {
    /// Inspect or initialize the config file.
    Config { action: ConfigAction },
}

#[derive(Debug, Clone, Copy, PartialEq, Eq, Structural)]
pub enum ConfigAction {
    /// Print the path to the config file.
    Path,
    /// Write a commented example config, never over an existing file.
    Init,
}

impl Cli {
    /// What discovery is asked to look at.
    pub fn discover_options(&self) -> (r: DiscoverOptions)
        ensures
            r.path.deep_view() == self.path.deep_view(),
            r.justfile.deep_view() == self.justfile.deep_view(),
    {
        DiscoverOptions { path: self.path.clone(), justfile: self.justfile.clone() }
    }
}

/// Why `config init` refuses: the file is already there.
pub fn init_refusal(path: &str) -> (r: String)
    ensures
        r@ == "config file already exists at "@ + path@ + "; refusing to overwrite"@,
{
    let mut r = String::new();
    push_str(&mut r, "config file already exists at ");
    push_str(&mut r, path);
    push_str(&mut r, "; refusing to overwrite");
    r
}

} // verus!
