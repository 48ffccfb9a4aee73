//! Errors of discovery and session start-up, with the text shown to the user.
use vstd::prelude::*;
use crate::text::{dec, dec_int, push_decimal, push_decimal_i32, push_str};

verus! {

pub enum Error {
    JustNotFound,
    JustInvocation { path: String, message: String },
    JustDump { path: String, code: i32, stderr: String },
    JustDumpParse { path: String, message: String },
    Walk { path: String, message: String },
    PtySpawn(String),
    TerminalTooSmall { cols: u16, rows: u16, min_cols: u16, min_rows: u16 },
    Io(String),
    Other(String),
}

/// The text of each error as the user sees it.
pub open spec fn error_text(e: &Error) -> Seq<char> {
    match e {
        Error::JustNotFound => "`just` binary not found on PATH. Install: https://github.com/casey/just"@,
        Error::JustInvocation { path, message } =>
            "failed to invoke `just` ("@ + path@ + "): "@ + message@,
        Error::JustDump { path, code, stderr } =>
            "`just --dump` failed for "@ + path@ + ": exit "@ + dec_int(*code as int) + "\n"@ + stderr@,
        Error::JustDumpParse { path, message } =>
            "failed to parse `just --dump` output for "@ + path@ + ": "@ + message@,
        Error::Walk { path, message } =>
            "filesystem walk error at "@ + path@ + ": "@ + message@,
        Error::PtySpawn(m) => "PTY spawn failed: "@ + m@,
        Error::TerminalTooSmall { cols, rows, min_cols, min_rows } =>
            "terminal too small: minimum "@ + dec(*min_cols as nat) + "x"@ + dec(*min_rows as nat)
                + ", got "@ + dec(*cols as nat) + "x"@ + dec(*rows as nat),
        Error::Io(m) => m@,
        Error::Other(m) => m@,
    }
}

impl Error {
    /// The text shown to the user for this error.
    pub fn message(&self) -> (r: String)
        ensures
            r@ == error_text(self),
    {
        let mut s = String::new();
        match self {
            Error::JustNotFound => {
                push_str(&mut s, "`just` binary not found on PATH. Install: https://github.com/casey/just");
            },
            Error::JustInvocation { path, message } => {
                push_str(&mut s, "failed to invoke `just` (");
                push_str(&mut s, path.as_str());
                push_str(&mut s, "): ");
                push_str(&mut s, message.as_str());
            },
            Error::JustDump { path, code, stderr } => {
                push_str(&mut s, "`just --dump` failed for ");
                push_str(&mut s, path.as_str());
                push_str(&mut s, ": exit ");
                push_decimal_i32(&mut s, *code);
                push_str(&mut s, "\n");
                push_str(&mut s, stderr.as_str());
            },
            Error::JustDumpParse { path, message } => {
                push_str(&mut s, "failed to parse `just --dump` output for ");
                push_str(&mut s, path.as_str());
                push_str(&mut s, ": ");
                push_str(&mut s, message.as_str());
            },
            Error::Walk { path, message } => {
                push_str(&mut s, "filesystem walk error at ");
                push_str(&mut s, path.as_str());
                push_str(&mut s, ": ");
                push_str(&mut s, message.as_str());
            },
            Error::PtySpawn(m) => {
                push_str(&mut s, "PTY spawn failed: ");
                push_str(&mut s, m.as_str());
            },
            Error::TerminalTooSmall { cols, rows, min_cols, min_rows } => {
                push_str(&mut s, "terminal too small: minimum ");
                push_decimal(&mut s, *min_cols as u64);
                push_str(&mut s, "x");
                push_decimal(&mut s, *min_rows as u64);
                push_str(&mut s, ", got ");
                push_decimal(&mut s, *cols as u64);
                push_str(&mut s, "x");
                push_decimal(&mut s, *rows as u64);
            },
            Error::Io(m) => {
                push_str(&mut s, m.as_str());
            },
            Error::Other(m) => {
                push_str(&mut s, m.as_str());
            },
        }
        s
    }
}

} // verus!
