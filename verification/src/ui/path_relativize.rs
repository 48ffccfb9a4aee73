//! Paths relative to the discovery root, for the section headers of the
//! all-justfiles list.
use vstd::prelude::*;
use crate::discovery::json::same_text;
use crate::text::{chars_of, push_char, push_str, string_of};

verus! {

/// The pieces of a path between slashes (empty pieces included).
pub open spec fn pieces(p: Seq<char>) -> Seq<Seq<char>>
    decreases p.len(),
{
    if p.len() == 0 {
        seq![Seq::empty()]
    } else {
        let r = pieces(p.drop_last());
        if p.last() == '/' {
            r.push(Seq::empty())
        } else {
            r.update(r.len() - 1, r.last().push(p.last()))
        }
    }
}

/// The named pieces: neither empty nor `.`.
pub open spec fn named(ps: Seq<Seq<char>>) -> Seq<Seq<char>>
    decreases ps.len(),
{
    if ps.len() == 0 {
        Seq::empty()
    } else {
        let r = named(ps.drop_last());
        if ps.last().len() > 0 && ps.last() != "."@ { r.push(ps.last()) } else { r }
    }
}

/// The components `Path::components` yields, as text: `/` for the root, `.`
/// for a leading current-directory piece, then the named pieces.
pub open spec fn components(p: Seq<char>) -> Seq<Seq<char>> {
    let lead: Seq<Seq<char>> = if p.len() > 0 && p[0] == '/' {
        seq!["/"@]
    } else if pieces(p)[0] == "."@ {
        seq!["."@]
    } else {
        Seq::empty()
    };
    lead + named(pieces(p))
}

/// Components written back as a path: after the root no `/` is added.
pub open spec fn join_components(cs: Seq<Seq<char>>) -> Seq<char>
    decreases cs.len(),
{
    if cs.len() == 0 {
        Seq::empty()
    } else if cs.len() == 1 {
        cs[0]
    } else {
        let init = join_components(cs.drop_last());
        if cs.len() == 2 && cs[0] == "/"@ { init + cs.last() } else { init + "/"@ + cs.last() }
    }
}

/// `path` relative to `root` when it lies under it (`./` for the root
/// itself), else `path` as it is.
pub open spec fn relativize_spec(path: Seq<char>, root: Seq<char>) -> Seq<char> {
    let pc = components(path);
    let rc = components(root);
    if rc.len() <= pc.len() && pc.take(rc.len() as int) == rc {
        let s = join_components(pc.skip(rc.len() as int));
        if s.len() == 0 || s == "."@ { "./"@ } else { s }
    } else {
        path
    }
}

proof fn lemma_pieces_nonempty(p: Seq<char>)
    ensures
        pieces(p).len() >= 1,
    decreases p.len(),
{
    if p.len() > 0 {
        lemma_pieces_nonempty(p.drop_last());
    }
}

/// The pieces of `p` between slashes.
fn split_pieces(p: &Vec<char>) -> (r: Vec<Vec<char>>)
    ensures
        r@.map_values(|v: Vec<char>| v@) == pieces(p@),
{
    let mut done: Vec<Vec<char>> = Vec::new();
    let mut cur: Vec<char> = Vec::new();
    let mut i: usize = 0;
    assert(p@.take(0) =~= Seq::<char>::empty());
    assert(done@.map_values(|v: Vec<char>| v@).push(cur@) =~= pieces(p@.take(0)));
    while i < p.len()
        invariant
            i <= p.len(),
            done@.map_values(|v: Vec<char>| v@).push(cur@) == pieces(p@.take(i as int)),
        decreases p.len() - i,
    {
        assert(p@.take(i + 1).drop_last() =~= p@.take(i as int));
        assert(p@.take(i + 1).last() == p@[i as int]);
        let ghost before = done@.map_values(|v: Vec<char>| v@);
        if p[i] == '/' {
            let finished = cur;
            cur = Vec::new();
            done.push(finished);
            assert(done@.map_values(|v: Vec<char>| v@) =~= before.push(finished@));
            assert(done@.map_values(|v: Vec<char>| v@).push(cur@) =~= before.push(finished@).push(Seq::<char>::empty()));
        } else {
            let ghost old_cur = cur@;
            cur.push(p[i]);
            assert(before.push(old_cur).update(before.len() as int, old_cur.push(p@[i as int])) =~= before.push(cur@));
        }
        i = i + 1;
    }
    assert(p@.take(i as int) =~= p@);
    done.push(cur);
    done
}

/// The components of a path, as text.
fn path_components(path: &str) -> (r: Vec<String>)
    ensures
        r.deep_view() == components(path@),
{
    let cs = chars_of(path);
    let ps = split_pieces(&cs);
    let ghost pv = ps@.map_values(|v: Vec<char>| v@);
    proof { lemma_pieces_nonempty(cs@); }
    let mut out: Vec<String> = Vec::new();
    if cs.len() > 0 && cs[0] == '/' {
        out.push(crate::discovery::parse::text("/"));
    } else if ps[0].len() == 1 && ps[0][0] == '.' {
        assert(pv[0] =~= "."@) by { reveal_strlit("."); }
        out.push(crate::discovery::parse::text("."));
    } else {
        assert(pv[0] != "."@) by {
            reveal_strlit(".");
            if pv[0] == "."@ { assert(pv[0].len() == 1 && pv[0][0] == '.'); }
        }
    }
    let ghost lead = out.deep_view();
    let mut i: usize = 0;
    assert(pv.take(0) =~= Seq::<Seq<char>>::empty());
    assert(out.deep_view() =~= lead + named(pv.take(0)));
    while i < ps.len()
        invariant
            i <= ps.len(),
            pv == ps@.map_values(|v: Vec<char>| v@),
            out.deep_view() == lead + named(pv.take(i as int)),
        decreases ps.len() - i,
    {
        assert(pv.take(i + 1).drop_last() =~= pv.take(i as int));
        assert(pv.take(i + 1).last() == ps@[i as int]@);
        let is_dot = ps[i].len() == 1 && ps[i][0] == '.';
        assert(is_dot == (pv[i as int] == "."@)) by {
            reveal_strlit(".");
            if pv[i as int] == "."@ { assert(pv[i as int].len() == 1 && pv[i as int][0] == '.'); }
            if is_dot { assert(pv[i as int] =~= "."@); }
        }
        if ps[i].len() > 0 && !is_dot {
            let ghost before = out.deep_view();
            out.push(string_of(&ps[i]));
            assert(out.deep_view() =~= before.push(pv[i as int]));
        }
        i = i + 1;
    }
    assert(pv.take(i as int) =~= pv);
    out
}

fn join_parts(cs: &Vec<String>) -> (r: String)
    ensures
        r@ == join_components(cs.deep_view()),
{
    let ghost cv = cs.deep_view();
    let mut r = String::new();
    let mut i: usize = 0;
    assert(cv.take(0) =~= Seq::<Seq<char>>::empty());
    while i < cs.len()
        invariant
            i <= cs.len(),
            cv == cs.deep_view(),
            r@ == join_components(cv.take(i as int)),
        decreases cs.len() - i,
    {
        assert(cv.take(i + 1).drop_last() =~= cv.take(i as int));
        assert(cv.take(i + 1).last() == cs@[i as int]@);
        if i > 0 {
            let after_root = i == 1 && same_text(cs[0].as_str(), "/");
            assert(cv.take(i + 1)[0] == cv[0]);
            if !after_root {
                push_str(&mut r, "/");
            }
        }
        push_str(&mut r, cs[i].as_str());
        i = i + 1;
        assert(i == 1 ==> cv.take(i as int) =~= seq![cv[0]]);
    }
    assert(cv.take(i as int) =~= cv);
    r
}

fn is_prefix(pc: &Vec<String>, rc: &Vec<String>) -> (r: bool)
    ensures
        r == (rc.deep_view().len() <= pc.deep_view().len()
            && pc.deep_view().take(rc.deep_view().len() as int) == rc.deep_view()),
{
    let ghost pv = pc.deep_view();
    let ghost rv = rc.deep_view();
    assert(pv.len() == pc.len() && rv.len() == rc.len());
    if rc.len() > pc.len() {
        return false;
    }
    let mut i: usize = 0;
    while i < rc.len() && same_text(pc[i].as_str(), rc[i].as_str())
        invariant
            i <= rc.len() <= pc.len(),
            pv == pc.deep_view(),
            rv == rc.deep_view(),
            forall|k: int| 0 <= k < i ==> pv[k] == rv[k],
        decreases rc.len() - i,
    {
        assert(pv[i as int] == pc@[i as int]@ && rv[i as int] == rc@[i as int]@);
        i = i + 1;
    }
    if i == rc.len() {
        assert(pv.take(rc.len() as int) =~= rv);
        true
    } else {
        assert(pv[i as int] == pc@[i as int]@ && rv[i as int] == rc@[i as int]@);
        assert(pv.take(rc.len() as int)[i as int] != rv[i as int]);
        false
    }
}

fn components_from(pc: &Vec<String>, n: usize) -> (r: Vec<String>)
    requires
        n <= pc.len(),
    ensures
        r.deep_view() == pc.deep_view().skip(n as int),
{
    let ghost pv = pc.deep_view();
    let mut rest: Vec<String> = Vec::new();
    let mut k: usize = n;
    while k < pc.len()
        invariant
            n <= k <= pc.len(),
            pv == pc.deep_view(),
            pv.len() == pc.len(),
            rest.deep_view() == pv.subrange(n as int, k as int),
        decreases pc.len() - k,
    {
        assert(pv[k as int] == pc@[k as int]@);
        let ghost before = rest.deep_view();
        let c = pc[k].clone();
        rest.push(c);
        assert(rest.deep_view() =~= before.push(pv[k as int]));
        k = k + 1;
        assert(rest.deep_view() =~= pv.subrange(n as int, k as int));
    }
    assert(pv.subrange(n as int, pc.len() as int) =~= pv.skip(n as int));
    rest
}

/// `path` relative to `root` (both as the user gave them), as the section
/// header of its justfile shows it.
pub fn relativize_to_root(path: &str, root: &str) -> (r: String)
    ensures
        r@ == relativize_spec(path@, root@),
{
    let pc = path_components(path);
    let rc = path_components(root);
    if !is_prefix(&pc, &rc) {
        let mut r = String::new();
        push_str(&mut r, path);
        return r;
    }
    let rest = components_from(&pc, rc.len());
    let s = join_parts(&rest);
    if chars_of(s.as_str()).len() == 0 || same_text(s.as_str(), ".") {
        let mut r = String::new();
        push_str(&mut r, "./");
        return r;
    }
    s
}

} // verus!
