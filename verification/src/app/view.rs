//! The ordered list of rows shared by the list renderer, the cursor
//! reducer, the filter and the run-dispatch path.
use vstd::prelude::*;
use crate::app::types::{Justfile, JustfileView, ListMode};

verus! {

#[derive(Debug, Clone, Copy, PartialEq, Eq, Structural)]
pub enum RowRef {
    /// Section header; only emitted in `ListMode::All`.
    Header { jf_idx: usize },
    /// One recipe row: `recipe_idx` indexes the recipes of justfile `jf_idx`.
    Recipe { jf_idx: usize, recipe_idx: usize },
}

pub struct ListView {
    pub rows: Vec<RowRef>,
}

pub open spec fn jviews(js: Seq<Justfile>) -> Seq<JustfileView> {
    js.map_values(|j: Justfile| j@)
}

/// Recipe rows `(jf, 0) .. (jf, n - 1)`.
pub open spec fn recipe_rows(jf: usize, n: nat) -> Seq<RowRef> {
    Seq::new(n, |i: int| RowRef::Recipe { jf_idx: jf, recipe_idx: i as usize })
}

/// Active mode: one row per recipe of the active justfile, nothing when
/// the index is out of range.
pub open spec fn active_rows(js: Seq<JustfileView>, active: usize) -> Seq<RowRef> {
    if active < js.len() {
        recipe_rows(active, js[active as int].recipes.len())
    } else {
        Seq::empty()
    }
}

/// The block of justfile `k` in All mode: a header then its recipes, or
/// nothing when it has no recipes.
pub open spec fn all_block(js: Seq<JustfileView>, k: int) -> Seq<RowRef> {
    if js[k].recipes.len() == 0 {
        Seq::empty()
    } else {
        seq![RowRef::Header { jf_idx: k as usize }] + recipe_rows(k as usize, js[k].recipes.len())
    }
}

/// All mode over the first `n` justfiles, in order.
pub open spec fn all_rows_upto(js: Seq<JustfileView>, n: int) -> Seq<RowRef>
    decreases n,
{
    if n <= 0 {
        Seq::empty()
    } else {
        all_rows_upto(js, n - 1) + all_block(js, n - 1)
    }
}

pub open spec fn all_rows(js: Seq<JustfileView>) -> Seq<RowRef> {
    all_rows_upto(js, js.len() as int)
}

pub open spec fn build_rows(js: Seq<JustfileView>, mode: ListMode, active: usize) -> Seq<RowRef> {
    match mode {
        ListMode::Active => active_rows(js, active),
        ListMode::All => all_rows(js),
    }
}

/// The `(jf_idx, recipe_idx)` pairs of the recipe rows, in row order.
pub open spec fn recipe_positions(rows: Seq<RowRef>) -> Seq<(usize, usize)>
    decreases rows.len(),
{
    if rows.len() == 0 {
        Seq::empty()
    } else {
        let rest = recipe_positions(rows.drop_last());
        match rows.last() {
            RowRef::Recipe { jf_idx, recipe_idx } => rest.push((jf_idx, recipe_idx)),
            RowRef::Header { .. } => rest,
        }
    }
}

impl ListView {
    pub fn build(justfiles: &Vec<Justfile>, mode: ListMode, active_jf: usize) -> (v: ListView)
        ensures
            v.rows@ == build_rows(jviews(justfiles@), mode, active_jf),
    {
        let rows = match mode {
            ListMode::Active => build_active(justfiles, active_jf),
            ListMode::All => build_all(justfiles),
        };
        ListView { rows }
    }

    /// Number of recipe rows (headers excluded).
    pub fn recipe_count(&self) -> (n: usize)
        ensures
            n == recipe_positions(self.rows@).len(),
    {
        let mut n: usize = 0;
        let mut i: usize = 0;
        while i < self.rows.len()
            invariant
                i <= self.rows.len(),
                n == recipe_positions(self.rows@.take(i as int)).len(),
                n <= i,
            decreases self.rows.len() - i,
        {
            assert(self.rows@.take(i + 1).drop_last() == self.rows@.take(i as int));
            match self.rows[i] {
                RowRef::Recipe { .. } => {
                    n = n + 1;
                },
                RowRef::Header { .. } => {},
            }
            i = i + 1;
        }
        assert(self.rows@.take(i as int) == self.rows@);
        n
    }

    /// Resolve cursor index `n`, counted over recipe rows only, to the
    /// underlying `(jf_idx, recipe_idx)` pair.
    pub fn recipe_at(&self, n: usize) -> (r: Option<(usize, usize)>)
        ensures
            r == (if n < recipe_positions(self.rows@).len() {
                Some(recipe_positions(self.rows@)[n as int])
            } else {
                None::<(usize, usize)>
            }),
    {
        let mut seen: usize = 0;
        let mut i: usize = 0;
        while i < self.rows.len()
            invariant
                i <= self.rows.len(),
                seen == recipe_positions(self.rows@.take(i as int)).len(),
                seen <= n,
            decreases self.rows.len() - i,
        {
            assert(self.rows@.take(i + 1).drop_last() == self.rows@.take(i as int));
            match self.rows[i] {
                RowRef::Recipe { jf_idx, recipe_idx } => {
                    if seen == n {
                        proof {
                            assert(recipe_positions(self.rows@.take(i + 1))[n as int] == (jf_idx, recipe_idx));
                            lemma_positions_prefix(self.rows@, i + 1, self.rows.len() as int);
                            assert(self.rows@.take(self.rows.len() as int) == self.rows@);
                        }
                        return Some((jf_idx, recipe_idx));
                    }
                    seen = seen + 1;
                },
                RowRef::Header { .. } => {},
            }
            i = i + 1;
        }
        assert(self.rows@.take(i as int) == self.rows@);
        None
    }
}

/// The recipe positions of a prefix of the rows are a prefix of those of
/// a longer prefix.
proof fn lemma_positions_prefix(rows: Seq<RowRef>, a: int, b: int)
    requires
        0 <= a <= b <= rows.len(),
    ensures
        recipe_positions(rows.take(a)).len() <= recipe_positions(rows.take(b)).len(),
        forall|j: int| 0 <= j < recipe_positions(rows.take(a)).len() ==>
            recipe_positions(rows.take(a))[j] == recipe_positions(rows.take(b))[j],
    decreases b - a,
{
    if a < b {
        lemma_positions_prefix(rows, a, b - 1);
        assert(rows.take(b).drop_last() == rows.take(b - 1));
    }
}

fn build_active(justfiles: &Vec<Justfile>, active_jf: usize) -> (rows: Vec<RowRef>)
    ensures
        rows@ == active_rows(jviews(justfiles@), active_jf),
{
    let mut out: Vec<RowRef> = Vec::new();
    if active_jf >= justfiles.len() {
        return out;
    }
    let n = justfiles[active_jf].recipes.len();
    let mut i: usize = 0;
    while i < n
        invariant
            i <= n,
            active_jf < justfiles.len(),
            n == justfiles@[active_jf as int].recipes@.len(),
            out@ == recipe_rows(active_jf, i as nat),
        decreases n - i,
    {
        out.push(RowRef::Recipe { jf_idx: active_jf, recipe_idx: i });
        i = i + 1;
        assert(out@ == recipe_rows(active_jf, i as nat));
    }
    out
}

fn build_all(justfiles: &Vec<Justfile>) -> (rows: Vec<RowRef>)
    ensures
        rows@ == all_rows(jviews(justfiles@)),
{
    let ghost js = jviews(justfiles@);
    let mut out: Vec<RowRef> = Vec::new();
    let mut k: usize = 0;
    while k < justfiles.len()
        invariant
            k <= justfiles.len(),
            js == jviews(justfiles@),
            out@ == all_rows_upto(js, k as int),
        decreases justfiles.len() - k,
    {
        let n = justfiles[k].recipes.len();
        if n > 0 {
            let ghost before = out@;
            out.push(RowRef::Header { jf_idx: k });
            let mut i: usize = 0;
            while i < n
                invariant
                    i <= n,
                    k < justfiles.len(),
                    js == jviews(justfiles@),
                    n == js[k as int].recipes.len(),
                    out@ == before + seq![RowRef::Header { jf_idx: k }] + recipe_rows(k, i as nat),
                decreases n - i,
            {
                out.push(RowRef::Recipe { jf_idx: k, recipe_idx: i });
                i = i + 1;
                assert(out@ == before + seq![RowRef::Header { jf_idx: k }] + recipe_rows(k, i as nat));
            }
        }
        k = k + 1;
        assert(out@ == all_rows_upto(js, k as int));
    }
    out
}

} // verus!
