//! Decisions the session manager makes around a PTY: the command line it
//! shows, when the recipe line is typed in, and how much output is logged.
use vstd::prelude::*;
use crate::app::types::{SessionId, SessionMeta, Status};
use crate::text::push_str;

verus! {

/// How long the shell must have been quiet before the recipe line is typed.
pub const PRIME_IDLE_MS: u64 = 400;
/// The latest moment the recipe line is typed, quiet or not.
pub const PRIME_CAP_MS: u64 = 5000;
/// How often the quiet time is checked.
pub const PRIME_POLL_MS: u64 = 50;

/// Arguments joined with single spaces.
pub open spec fn join_args(args: Seq<Seq<char>>) -> Seq<char>
    decreases args.len(),
{
    if args.len() == 0 {
        Seq::empty()
    } else if args.len() == 1 {
        args[0]
    } else {
        join_args(args.drop_last()) + " "@ + args.last()
    }
}

pub open spec fn command_line_spec(justfile: Seq<char>, recipe: Seq<char>, args: Seq<Seq<char>>) -> Seq<char> {
    "just --justfile "@ + justfile + " "@ + recipe + " "@ + join_args(args)
}

/// The invocation shown for a session (not shell-quoted; for display).
pub fn command_line(justfile: &str, recipe: &str, args: &[String]) -> (r: String)
    ensures
        r@ == command_line_spec(justfile@, recipe@, args@.map_values(|a: String| a@)),
{
    let mut r = String::new();
    push_str(&mut r, "just --justfile ");
    push_str(&mut r, justfile);
    push_str(&mut r, " ");
    push_str(&mut r, recipe);
    push_str(&mut r, " ");
    let ghost head = r@;
    let ghost av = args@.map_values(|a: String| a@);
    let mut i: usize = 0;
    assert(av.take(0) =~= Seq::<Seq<char>>::empty());
    assert(r@ =~= head + join_args(av.take(0)));
    while i < args.len()
        invariant
            i <= args.len(),
            av == args@.map_values(|a: String| a@),
            r@ == head + join_args(av.take(i as int)),
        decreases args.len() - i,
    {
        if i > 0 {
            push_str(&mut r, " ");
        }
        push_str(&mut r, args[i].as_str());
        assert(av.take(i + 1).drop_last() =~= av.take(i as int));
        assert(av.take(i + 1).last() == args@[i as int]@);
        i = i + 1;
        assert(r@ =~= head + join_args(av.take(i as int)));
    }
    assert(av.take(i as int) =~= av);
    r
}

/// A chunk of output goes to the session log only while the log stays
/// within its cap; a chunk that would pass it is dropped.
pub fn log_accepts(written: u64, len: u64, cap: u64) -> (r: bool)
    ensures
        r == (written + len <= cap),
{
    match written.checked_add(len) {
        Some(total) => total <= cap,
        None => false,
    }
}

/// Whether to type the recipe line now: the shell has printed something
/// and been quiet for `PRIME_IDLE_MS`, or `PRIME_CAP_MS` have passed.
pub fn prime_ready(elapsed_ms: u64, quiet_ms: Option<u64>) -> (r: bool)
    ensures
        r == (elapsed_ms >= PRIME_CAP_MS || (quiet_ms matches Some(q) && q >= PRIME_IDLE_MS)),
{
    if elapsed_ms >= PRIME_CAP_MS {
        return true;
    }
    match quiet_ms {
        Some(q) => q >= PRIME_IDLE_MS,
        None => false,
    }
}

/// The argv of the shell a session runs in: `$SHELL -i`, `/bin/sh` when
/// the variable is not set; no extra environment.
pub fn unix_argv(shell: Option<String>) -> (r: (Vec<String>, Vec<(String, String)>))
    ensures
        r.0.deep_view() == seq![match shell { Some(s) => s@, None => "/bin/sh"@ }, "-i"@],
        r.1@.len() == 0,
{
    let sh = match shell {
        Some(s) => s,
        None => crate::discovery::parse::text("/bin/sh"),
    };
    let argv = vec![sh, crate::discovery::parse::text("-i")];
    assert(argv.deep_view() =~= seq![argv@[0]@, "-i"@]);
    (argv, Vec::new())
}

/// The record of a session just spawned: running, with unread output.
pub fn new_session_meta(id: SessionId, recipe: &str, justfile: &str, args: &[String], log_path: String, pid: Option<u32>) -> (m: SessionMeta)
    ensures
        m@.id == id,
        m@.recipe_name == recipe@,
        m@.command_line == command_line_spec(justfile@, recipe@, args@.map_values(|a: String| a@)),
        m@.status == Status::Running,
        m@.unread,
        m@.log_path == log_path@,
        m@.pid == pid,
{
    SessionMeta {
        id,
        recipe_name: crate::discovery::parse::text(recipe),
        command_line: command_line(justfile, recipe, args),
        status: Status::Running,
        unread: true,
        log_path,
        pid,
    }
}

/// A session log directory older than the retention (both in
/// nanoseconds) is removed at start-up.
pub fn expired(age_nanos: u128, max_age_nanos: u128) -> (r: bool)
    ensures
        r == (age_nanos > max_age_nanos),
{
    age_nanos > max_age_nanos
}

} // verus!
