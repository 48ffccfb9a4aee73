//! Shell-string construction for the session layer.
use vstd::prelude::*;
use crate::text::{chars_of, push_char};

verus! {

/// The POSIX single-quoted form of `s`: `'` + `s` with each `'` written as
/// `'\''` + `'`.
pub open spec fn quote_body(s: Seq<char>) -> Seq<char>
    decreases s.len(),
{
    if s.len() == 0 {
        Seq::empty()
    } else {
        let head = if s[0] == '\'' { seq!['\'', '\\', '\'', '\''] } else { seq![s[0]] };
        head + quote_body(s.drop_first())
    }
}

pub open spec fn quoted(s: Seq<char>) -> Seq<char> {
    seq!['\''] + quote_body(s) + seq!['\'']
}

/// POSIX single-quote escape of `s`.
pub fn shell_quote(s: &str) -> (out: String)
    ensures
        out@ == quoted(s@),
{
    let cs = chars_of(s);
    let mut out = String::new();
    push_char(&mut out, '\'');
    let mut i: usize = 0;
    assert(cs@.skip(0) == cs@);
    assert(quoted(s@).drop_last() == seq!['\''] + quote_body(s@));
    while i < cs.len()
        invariant
            i <= cs.len(),
            cs@ == s@,
            out@ + quote_body(cs@.skip(i as int)) == quoted(s@).drop_last(),
        decreases cs.len() - i,
    {
        assert(cs@.skip(i as int).drop_first() == cs@.skip(i + 1));
        if cs[i] == '\'' {
            push_char(&mut out, '\'');
            push_char(&mut out, '\\');
            push_char(&mut out, '\'');
            push_char(&mut out, '\'');
        } else {
            push_char(&mut out, cs[i]);
        }
        i = i + 1;
    }
    assert(cs@.skip(i as int) == Seq::<char>::empty());
    assert(out@ == quoted(s@).drop_last());
    push_char(&mut out, '\'');
    assert(out@ == quoted(s@));
    out
}

} // verus!

verus! {

/// How a POSIX shell reads a word built from single-quoted segments and
/// backslash escapes: inside quotes every character stands for itself up to
/// the closing `'`; outside, `\c` stands for `c` and `'` opens a segment.
/// `None` when a quote is left open or a backslash ends the word.
pub open spec fn sh_unquote(w: Seq<char>, in_quotes: bool) -> Option<Seq<char>>
    decreases w.len(),
{
    if w.len() == 0 {
        if in_quotes { None } else { Some(Seq::empty()) }
    } else if in_quotes {
        if w[0] == '\'' {
            sh_unquote(w.drop_first(), false)
        } else {
            match sh_unquote(w.drop_first(), true) {
                Some(r) => Some(seq![w[0]] + r),
                None => None,
            }
        }
    } else if w[0] == '\'' {
        sh_unquote(w.drop_first(), true)
    } else if w[0] == '\\' {
        if w.len() < 2 {
            None
        } else {
            match sh_unquote(w.skip(2), false) {
                Some(r) => Some(seq![w[1]] + r),
                None => None,
            }
        }
    } else {
        match sh_unquote(w.drop_first(), false) {
            Some(r) => Some(seq![w[0]] + r),
            None => None,
        }
    }
}

proof fn lemma_quote_body_reads_back(s: Seq<char>)
    ensures
        sh_unquote(quote_body(s) + seq!['\''], true) == Some(s),
    decreases s.len(),
{
    let w = quote_body(s) + seq!['\''];
    if s.len() == 0 {
        assert(w =~= seq!['\'']);
        assert(w.drop_first() =~= Seq::<char>::empty());
        assert(sh_unquote(w.drop_first(), false) == Some(Seq::<char>::empty()));
        assert(s =~= Seq::<char>::empty());
    } else {
        let rest = s.drop_first();
        lemma_quote_body_reads_back(rest);
        let tail = quote_body(rest) + seq!['\''];
        if s[0] == '\'' {
            let w1 = seq!['\\', '\'', '\''] + tail;
            let w2 = seq!['\''] + tail;
            assert(w =~= seq!['\''] + w1);
            assert(w.drop_first() =~= w1);
            assert(w1.skip(2) =~= w2);
            assert(w2.drop_first() =~= tail);
            assert(sh_unquote(w2, false) == sh_unquote(tail, true));
            assert(sh_unquote(w1, false) == Some(seq!['\''] + rest));
            assert(sh_unquote(w, true) == sh_unquote(w1, false));
        } else {
            assert(w =~= seq![s[0]] + tail);
            assert(w.drop_first() =~= tail);
            assert(sh_unquote(w, true) == Some(seq![s[0]] + rest));
        }
        assert(seq![s[0]] + rest =~= s);
    }
}

/// Quoting never changes what the shell reads: the word `shell_quote`
/// returns expands to exactly its input, whatever characters it holds.
pub proof fn law_shell_quote_reads_back(s: Seq<char>)
    ensures
        sh_unquote(quoted(s), false) == Some(s),
{
    lemma_quote_body_reads_back(s);
    assert(quoted(s).drop_first() =~= quote_body(s) + seq!['\'']);
}

/// The marker command appended to every recipe line: it prints the OSC
/// sequence carrying the recipe's exit status.
pub open spec fn done_marker_command() -> Seq<char> {
    " ; printf '\\033]1337;LazyjustDone=%d\\007' $?"@
}

/// Each argument quoted, each after a space.
pub open spec fn quoted_args(args: Seq<Seq<char>>) -> Seq<char>
    decreases args.len(),
{
    if args.len() == 0 { Seq::empty() } else { quoted_args(args.drop_last()) + " "@ + quoted(args.last()) }
}

/// The line fed to the interactive shell to run a recipe.
pub open spec fn prime_line_spec(justfile: Seq<char>, recipe: Seq<char>, args: Seq<Seq<char>>) -> Seq<char> {
    "just --justfile "@ + quoted(justfile) + " "@ + quoted(recipe) + quoted_args(args) + done_marker_command()
}

/// Builds the line fed into an interactive shell's stdin to run a recipe:
/// the justfile path, the recipe name and every argument shell-quoted,
/// then the command that reports the exit status.
pub fn prime_line(justfile: &str, recipe: &str, args: &[String]) -> (line: String)
    ensures
        line@ == prime_line_spec(justfile@, recipe@, args@.map_values(|a: String| a@)),
{
    let mut line = String::new();
    crate::text::push_str(&mut line, "just --justfile ");
    let q = shell_quote(justfile);
    crate::text::push_str(&mut line, q.as_str());
    crate::text::push_str(&mut line, " ");
    let q = shell_quote(recipe);
    crate::text::push_str(&mut line, q.as_str());
    let ghost head = line@;
    let ghost av = args@.map_values(|a: String| a@);
    let mut i: usize = 0;
    assert(av.take(0) =~= Seq::<Seq<char>>::empty());
    assert(line@ =~= head + quoted_args(av.take(0)));
    while i < args.len()
        invariant
            i <= args.len(),
            av == args@.map_values(|a: String| a@),
            line@ == head + quoted_args(av.take(i as int)),
        decreases args.len() - i,
    {
        crate::text::push_str(&mut line, " ");
        let q = shell_quote(args[i].as_str());
        crate::text::push_str(&mut line, q.as_str());
        assert(av.take(i + 1).drop_last() =~= av.take(i as int));
        assert(av.take(i + 1).last() == args@[i as int]@);
        i = i + 1;
        assert(line@ =~= head + quoted_args(av.take(i as int)));
    }
    assert(av.take(i as int) =~= av);
    let ghost mid = line@;
    crate::text::push_str(&mut line, " ; printf '\\033]1337;LazyjustDone=%d\\007' $?");
    assert(line@ == mid + done_marker_command());
    assert(line@ =~= prime_line_spec(justfile@, recipe@, av));
    line
}

} // verus!
