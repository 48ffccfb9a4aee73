//! The one-line header above a session's output.
use vstd::prelude::*;
use crate::app::types::Status;
use crate::text::{dec, dec_int, push_decimal, push_decimal_i32, push_str};

verus! {

/// Elapsed time in its largest whole unit: seconds, minutes or hours.
pub open spec fn elapsed_text(secs: u64) -> Seq<char> {
    if secs < 60 {
        dec(secs as nat) + "s"@
    } else if secs < 3600 {
        dec((secs / 60) as nat) + "m"@
    } else {
        dec((secs / 3600) as nat) + "h"@
    }
}

pub fn fmt_elapsed(secs: u64) -> (r: String)
    ensures
        r@ == elapsed_text(secs),
{
    let mut r = String::new();
    if secs < 60 {
        push_decimal(&mut r, secs);
        push_str(&mut r, "s");
    } else if secs < 3600 {
        push_decimal(&mut r, secs / 60);
        push_str(&mut r, "m");
    } else {
        push_decimal(&mut r, secs / 3600);
        push_str(&mut r, "h");
    }
    r
}

/// The glyph and label shown for a session's status.
pub open spec fn status_label_spec(status: Status, elapsed: Seq<char>) -> (Seq<char>, Seq<char>) {
    match status {
        Status::Running => ("●"@, "running · "@ + elapsed),
        Status::Exited { code } => if code == 0 {
            ("✓"@, "done · "@ + elapsed)
        } else {
            ("✗"@, "exit "@ + dec_int(code as int) + " · "@ + elapsed)
        },
        Status::ShellAfterExit { code } => ("⌁"@, "shell (exited "@ + dec_int(code as int) + ") · press ^D to close"@),
        Status::Broken => ("!"@, "broken"@),
    }
}

pub fn status_label(status: Status, elapsed: &str) -> (r: (&'static str, String))
    ensures
        (r.0@, r.1@) == status_label_spec(status, elapsed@),
{
    let mut label = String::new();
    match status {
        Status::Running => {
            push_str(&mut label, "running · ");
            push_str(&mut label, elapsed);
            ("●", label)
        },
        Status::Exited { code } => {
            if code == 0 {
                push_str(&mut label, "done · ");
                push_str(&mut label, elapsed);
                ("✓", label)
            } else {
                push_str(&mut label, "exit ");
                push_decimal_i32(&mut label, code);
                push_str(&mut label, " · ");
                push_str(&mut label, elapsed);
                ("✗", label)
            }
        },
        Status::ShellAfterExit { code } => {
            push_str(&mut label, "shell (exited ");
            push_decimal_i32(&mut label, code);
            push_str(&mut label, ") · press ^D to close");
            ("⌁", label)
        },
        Status::Broken => {
            push_str(&mut label, "broken");
            ("!", label)
        },
    }
}

/// The right-hand metadata: the PID when known, and the log pointer.
pub open spec fn pid_text_spec(pid: Option<u32>) -> Seq<char> {
    match pid {
        Some(p) => "pid "@ + dec(p as nat) + " · logs ↗"@,
        None => "logs ↗"@,
    }
}

pub fn pid_text(pid: Option<u32>) -> (r: String)
    ensures
        r@ == pid_text_spec(pid),
{
    let mut r = String::new();
    match pid {
        Some(p) => {
            push_str(&mut r, "pid ");
            push_decimal(&mut r, p as u64);
            push_str(&mut r, " · logs ↗");
        },
        None => push_str(&mut r, "logs ↗"),
    }
    r
}

/// How the right-hand metadata fits next to the left part.
pub enum HeaderFit {
    /// Right-aligned after this many spaces.
    Full { gap: usize },
    /// Only its first `keep` characters fit, after two spaces.
    Truncated { keep: usize },
    /// No room for it.
    Hidden,
}

/// Fitting `right_w` columns of metadata after `left_w` columns in `width`,
/// with at least two columns between them.
pub fn header_fit(left_w: usize, right_w: usize, width: usize) -> (r: HeaderFit)
    ensures
        left_w + 2 + right_w <= width ==> r == (HeaderFit::Full { gap: (width - left_w - right_w) as usize }),
        left_w + 2 + right_w > width && left_w + 2 <= width ==> r == (HeaderFit::Truncated { keep: (width - left_w - 2) as usize }),
        left_w + 2 > width ==> r is Hidden,
{
    if left_w <= width && right_w <= width - left_w && 2 <= width - left_w - right_w {
        HeaderFit::Full { gap: width - left_w - right_w }
    } else if left_w <= width && 2 <= width - left_w {
        HeaderFit::Truncated { keep: width - left_w - 2 }
    } else {
        HeaderFit::Hidden
    }
}

} // verus!
