//! Paths as the top bar shows them.
use vstd::prelude::*;
use crate::text::{chars_of, push_str};

verus! {

/// `path` with a leading home directory written `~`.
pub open spec fn tilde_spec(path: Seq<char>, home: Option<Seq<char>>) -> Seq<char> {
    match home {
        Some(h) => if h.len() == 0 {
            path
        } else if path == h {
            "~"@
        } else if path.len() > h.len() && path.take(h.len() as int) == h && path[h.len() as int] == '/' {
            "~/"@ + path.skip(h.len() as int + 1)
        } else {
            path
        },
        None => path,
    }
}

/// Writes the home directory at the start of `path` as `~` (`home` is the
/// value of `HOME`, if set).
pub fn render_with_home_tilde(path: &str, home: Option<&str>) -> (r: String)
    ensures
        r@ == tilde_spec(path@, match home { Some(h) => Some(h@), None => None }),
{
    let p = chars_of(path);
    let mut r = String::new();
    let h = match home {
        Some(h) => chars_of(h),
        None => {
            push_str(&mut r, path);
            return r;
        },
    };
    if h.len() == 0 {
        push_str(&mut r, path);
        return r;
    }
    if crate::discovery::json::same_text(path, home.unwrap()) {
        push_str(&mut r, "~");
        return r;
    }
    if p.len() > h.len() {
        let mut i: usize = 0;
        while i < h.len() && p[i] == h[i]
            invariant
                i <= h.len() < p.len(),
                forall|k: int| 0 <= k < i ==> p@[k] == h@[k],
            decreases h.len() - i,
        {
            i = i + 1;
        }
        if i == h.len() && p[h.len()] == '/' {
            assert(p@.take(h.len() as int) =~= h@);
            push_str(&mut r, "~/");
            let mut k: usize = h.len() + 1;
            let ghost start = r@;
            while k < p.len()
                invariant
                    h.len() + 1 <= k <= p.len(),
                    r@ == start + p@.subrange(h.len() + 1, k as int),
                decreases p.len() - k,
            {
                crate::text::push_char(&mut r, p[k]);
                k = k + 1;
                assert(r@ =~= start + p@.subrange(h.len() + 1, k as int));
            }
            assert(p@.subrange(h.len() + 1, p.len() as int) =~= p@.skip(h.len() + 1));
            return r;
        }
        if i < h.len() {
            assert(p@.take(h.len() as int)[i as int] != h@[i as int]);
        }
    }
    push_str(&mut r, path);
    r
}

/// Display width of a string, counted in characters.
pub fn display_width(s: &str) -> (w: usize)
    ensures
        w == s@.len(),
{
    chars_of(s).len()
}

/// `i` is the position of the first `/` in `s`.
pub open spec fn is_first_slash(s: Seq<char>, i: int) -> bool {
    0 <= i < s.len() && s[i] == '/' && forall|k: int| 0 <= k < i ==> s[k] != '/'
}

/// `i` is the position of the last `/` in `s`.
pub open spec fn is_last_slash(s: Seq<char>, i: int) -> bool {
    0 <= i < s.len() && s[i] == '/' && forall|k: int| i < k < s.len() ==> s[k] != '/'
}

pub open spec fn has_slash(s: Seq<char>) -> bool {
    exists|i: int| 0 <= i < s.len() && s[i] == '/'
}

/// The root anchor: what comes before the first `/` (empty for an absolute
/// path, `~` under the home directory).
pub open spec fn anchor_of(s: Seq<char>) -> Seq<char> {
    s.take(choose|i: int| is_first_slash(s, i))
}

/// The file name: what comes after the last `/`.
pub open spec fn file_name_of(s: Seq<char>) -> Seq<char> {
    s.skip((choose|i: int| is_last_slash(s, i)) + 1)
}

/// The anchor and the file name with the directories between them written `/…/`.
pub open spec fn compact_spec(s: Seq<char>) -> Seq<char> {
    anchor_of(s) + "/…/"@ + file_name_of(s)
}

/// The last `max - 1` characters after `…` (nothing when `max` is 0).
pub open spec fn tail_spec(s: Seq<char>, max: nat) -> Seq<char> {
    if max == 0 {
        Seq::empty()
    } else if s.len() < max {
        "…"@ + s
    } else {
        "…"@ + s.skip(s.len() - (max - 1))
    }
}

/// A text no wider than `max`: as it is when it fits; otherwise the root
/// anchor, `/…/` and the file name when that fits; otherwise `…` and the
/// end of the text.
pub open spec fn middle_spec(s: Seq<char>, max: nat) -> Seq<char> {
    if s.len() <= max {
        s
    } else if has_slash(s) && compact_spec(s).len() <= max {
        compact_spec(s)
    } else {
        tail_spec(s, max)
    }
}

proof fn lemma_first_slash_unique(s: Seq<char>, i: int, j: int)
    requires
        is_first_slash(s, i),
        is_first_slash(s, j),
    ensures
        i == j,
{
    if i < j { assert(s[i] != '/'); }
    if j < i { assert(s[j] != '/'); }
}

proof fn lemma_last_slash_unique(s: Seq<char>, i: int, j: int)
    requires
        is_last_slash(s, i),
        is_last_slash(s, j),
    ensures
        i == j,
{
    if i < j { assert(s[j] != '/'); }
    if j < i { assert(s[i] != '/'); }
}

fn push_range(r: &mut String, cs: &Vec<char>, from: usize, to: usize)
    requires
        from <= to <= cs.len(),
    ensures
        final(r)@ == old(r)@ + cs@.subrange(from as int, to as int),
{
    let ghost start = r@;
    let mut k = from;
    while k < to
        invariant
            from <= k <= to <= cs.len(),
            r@ == start + cs@.subrange(from as int, k as int),
        decreases to - k,
    {
        crate::text::push_char(r, cs[k]);
        k = k + 1;
        assert(r@ =~= start + cs@.subrange(from as int, k as int));
    }
}

/// Shortens `s` to at most `max_width` characters, keeping its start (the
/// root anchor) and its end (the file name) where they fit.
pub fn middle_truncate(s: &str, max_width: usize) -> (r: String)
    ensures
        r@ == middle_spec(s@, max_width as nat),
        r@.len() <= max_width,
{
    proof { reveal_strlit("…"); reveal_strlit("/…/"); }
    let cs = chars_of(s);
    let n = cs.len();
    if n <= max_width {
        let mut r = String::new();
        push_str(&mut r, s);
        return r;
    }
    let mut f: usize = 0;
    while f < n && cs[f] != '/'
        invariant
            f <= n == cs@.len(),
            forall|k: int| 0 <= k < f ==> cs@[k] != '/',
        decreases n - f,
    {
        f = f + 1;
    }
    if f < n {
        let mut l: usize = n - 1;
        while cs[l] != '/'
            invariant
                f <= l < n == cs@.len(),
                cs@[f as int] == '/',
                forall|k: int| l < k < n ==> cs@[k] != '/',
            decreases l,
        {
            l = l - 1;
        }
        proof {
            assert(is_first_slash(s@, f as int));
            assert(is_last_slash(s@, l as int));
            assert(has_slash(s@));
            let fi = choose|i: int| is_first_slash(s@, i);
            lemma_first_slash_unique(s@, fi, f as int);
            let li = choose|i: int| is_last_slash(s@, i);
            lemma_last_slash_unique(s@, li, l as int);
            assert(compact_spec(s@).len() == f + 3 + (n - l - 1));
        }
        if f <= max_width && 3 <= max_width - f && n - l - 1 <= max_width - f - 3 {
            let mut r = String::new();
            push_range(&mut r, &cs, 0, f);
            push_str(&mut r, "/…/");
            push_range(&mut r, &cs, l + 1, n);
            assert(r@ =~= compact_spec(s@));
            return r;
        }
    } else {
        assert(!has_slash(s@));
    }
    let mut r = String::new();
    if max_width == 0 {
        return r;
    }
    push_str(&mut r, "…");
    push_range(&mut r, &cs, n - (max_width - 1), n);
    assert(r@ =~= tail_spec(s@, max_width as nat));
    r
}

/// A path for display: the home directory as `~`; a path still wider than
/// `max_width` is middle-truncated (`middle_truncate`), so the result is
/// never wider than `max_width`. When the root anchor, `/…/` and the file
/// name fit, the result is exactly those.
pub fn shorten(path: &str, home: Option<&str>, max_width: usize) -> (r: String)
    ensures
        r@ == middle_spec(tilde_spec(path@, match home { Some(h) => Some(h@), None => None }), max_width as nat),
        r@.len() <= max_width,
        ({
            let t = tilde_spec(path@, match home { Some(h) => Some(h@), None => None });
            t.len() > max_width && has_slash(t) && compact_spec(t).len() <= max_width ==> {
                &&& r@.take(anchor_of(t).len() as int) == anchor_of(t)
                &&& r@.skip(r@.len() - file_name_of(t).len()) == file_name_of(t)
                &&& r@.contains('…')
            }
        }),
{
    proof { reveal_strlit("/…/"); }
    let s = render_with_home_tilde(path, home);
    let r = middle_truncate(s.as_str(), max_width);
    proof {
        let t = s@;
        if t.len() > max_width && has_slash(t) && compact_spec(t).len() <= max_width {
            let a = anchor_of(t);
            let fname = file_name_of(t);
            assert(r@ == a + "/…/"@ + fname);
            assert(r@.take(a.len() as int) =~= a);
            assert(r@.skip(r@.len() - fname.len()) =~= fname);
            assert(r@[a.len() as int + 1] == '…');
        }
    }
    r
}

} // verus!
