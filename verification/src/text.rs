//! Character-level string helpers shared by the rest of the library.
use vstd::prelude::*;

verus! {

/// Appends one character to a `String` (`String::push`).
#[verifier::external_body]
pub(crate) fn push_char(s: &mut String, c: char)
    ensures
        final(s)@ == old(s)@.push(c),
{
    s.push(c);
}

/// Copies the characters of a string slice into a vector.
pub fn chars_of(s: &str) -> (v: Vec<char>)
    ensures
        v@ == s@,
{
    let mut v: Vec<char> = Vec::new();
    for c in it: s.chars()
        invariant
            it.seq() == s@,
            v@ == it.seq().take(it.index() as int),
    {
        v.push(c);
    }
    v
}

/// Appends every character of `src` to `dst`.
pub fn push_chars(dst: &mut String, src: &Vec<char>)
    ensures
        final(dst)@ == old(dst)@ + src@,
{
    let mut i: usize = 0;
    while i < src.len()
        invariant
            i <= src.len(),
            dst@ == old(dst)@ + src@.take(i as int),
        decreases src.len() - i,
    {
        push_char(dst, src[i]);
        i = i + 1;
        assert(src@.take(i as int) == src@.take((i - 1) as int).push(src@[i - 1]));
    }
    assert(src@.take(src.len() as int) == src@);
}

/// Builds a `String` holding exactly the given characters.
pub fn string_of(v: &Vec<char>) -> (s: String)
    ensures
        s@ == v@,
{
    let mut s = String::new();
    push_chars(&mut s, v);
    s
}

} // verus!

verus! {

pub open spec fn ascii_lower(c: char) -> char {
    if 'A' <= c && c <= 'Z' {
        ((c as u32) + 32) as char
    } else {
        c
    }
}

/// `to_ascii_lowercase` on every character.
pub open spec fn ascii_lower_seq(s: Seq<char>) -> Seq<char>
    decreases s.len(),
{
    if s.len() == 0 {
        Seq::empty()
    } else {
        seq![ascii_lower(s[0])] + ascii_lower_seq(s.drop_first())
    }
}

pub proof fn lemma_ascii_lower_seq(s: Seq<char>)
    ensures
        ascii_lower_seq(s).len() == s.len(),
        forall|i: int| 0 <= i < s.len() ==> #[trigger] ascii_lower_seq(s)[i] == ascii_lower(s[i]),
    decreases s.len(),
{
    if s.len() > 0 {
        lemma_ascii_lower_seq(s.drop_first());
        assert forall|i: int| 0 <= i < s.len() implies #[trigger] ascii_lower_seq(s)[i] == ascii_lower(s[i]) by {
            if i > 0 {
                assert(ascii_lower_seq(s)[i] == ascii_lower_seq(s.drop_first())[i - 1]);
            }
        }
    }
}

pub fn ascii_lower_char(c: char) -> (r: char)
    ensures
        r == ascii_lower(c),
{
    if 'A' <= c && c <= 'Z' {
        let u: u8 = (c as u8) + 32;
        u as char
    } else {
        c
    }
}

/// `str::eq_ignore_ascii_case` on character sequences.
pub fn eq_ignore_ascii_case(a: &Vec<char>, b: &Vec<char>) -> (r: bool)
    ensures
        r == (ascii_lower_seq(a@) == ascii_lower_seq(b@)),
{
    proof {
        lemma_ascii_lower_seq(a@);
        lemma_ascii_lower_seq(b@);
    }
    if a.len() != b.len() {
        return false;
    }
    let mut i: usize = 0;
    while i < a.len()
        invariant
            i <= a.len(),
            a.len() == b.len(),
            ascii_lower_seq(a@).len() == a.len(),
            ascii_lower_seq(b@).len() == b.len(),
            forall|k: int| 0 <= k < a.len() ==> #[trigger] ascii_lower_seq(a@)[k] == ascii_lower(a@[k]),
            forall|k: int| 0 <= k < b.len() ==> #[trigger] ascii_lower_seq(b@)[k] == ascii_lower(b@[k]),
            forall|k: int| 0 <= k < i ==> ascii_lower(a@[k]) == ascii_lower(b@[k]),
        decreases a.len() - i,
    {
        if ascii_lower_char(a[i]) != ascii_lower_char(b[i]) {
            assert(ascii_lower_seq(a@)[i as int] != ascii_lower_seq(b@)[i as int]);
            return false;
        }
        i = i + 1;
    }
    assert(ascii_lower_seq(a@) =~= ascii_lower_seq(b@));
    true
}

} // verus!

verus! {

pub open spec fn digit_char(d: nat) -> char {
    ((d + 48) as u8) as char
}

/// Decimal representation of `n`, without leading zeros.
pub open spec fn dec(n: nat) -> Seq<char>
    decreases n,
{
    if n < 10 {
        seq![digit_char(n)]
    } else {
        dec(n / 10).push(digit_char(n % 10))
    }
}

/// Decimal representation of a signed integer, `-` before negatives.
pub open spec fn dec_int(n: int) -> Seq<char> {
    if n < 0 {
        seq!['-'] + dec((-n) as nat)
    } else {
        dec(n as nat)
    }
}

/// Appends the decimal form of `n`.
pub fn push_decimal(s: &mut String, n: u64)
    ensures
        final(s)@ == old(s)@ + dec(n as nat),
    decreases n,
{
    if n >= 10 {
        push_decimal(s, n / 10);
    }
    let d: u8 = (n % 10) as u8;
    push_char(s, (d + 48) as char);
}

/// Appends the decimal form of a signed integer.
pub fn push_decimal_i32(s: &mut String, n: i32)
    ensures
        final(s)@ == old(s)@ + dec_int(n as int),
{
    if n < 0 {
        push_char(s, '-');
        let m: u64 = (-(n as i64)) as u64;
        push_decimal(s, m);
    } else {
        push_decimal(s, n as u64);
    }
}

/// Appends a string slice.
pub fn push_str(dst: &mut String, src: &str)
    ensures
        final(dst)@ == old(dst)@ + src@,
{
    let cs = chars_of(src);
    push_chars(dst, &cs);
}

} // verus!

verus! {

/// One character before another: by code point, except that with
/// `slash_low` a `/` comes before every other character.
pub open spec fn char_lt(a: char, b: char, slash_low: bool) -> bool {
    if slash_low && a == '/' {
        b != '/'
    } else if slash_low && b == '/' {
        false
    } else {
        a < b
    }
}

/// Lexicographic order on character sequences under `char_lt`.
pub open spec fn lex_lt(a: Seq<char>, b: Seq<char>, slash_low: bool) -> bool
    decreases a.len(),
{
    if a.len() == 0 {
        b.len() > 0
    } else if b.len() == 0 {
        false
    } else if a[0] != b[0] {
        char_lt(a[0], b[0], slash_low)
    } else {
        lex_lt(a.drop_first(), b.drop_first(), slash_low)
    }
}

/// The order of `str::cmp`: characters compared by code point.
pub open spec fn seq_lt(a: Seq<char>, b: Seq<char>) -> bool {
    lex_lt(a, b, false)
}

pub proof fn lemma_lex_lt_irrefl(a: Seq<char>, sl: bool)
    ensures
        !lex_lt(a, a, sl),
    decreases a.len(),
{
    if a.len() > 0 {
        lemma_lex_lt_irrefl(a.drop_first(), sl);
    }
}

pub proof fn lemma_lex_lt_trans(a: Seq<char>, b: Seq<char>, c: Seq<char>, sl: bool)
    requires
        lex_lt(a, b, sl),
        lex_lt(b, c, sl),
    ensures
        lex_lt(a, c, sl),
    decreases a.len(),
{
    if a.len() > 0 && b.len() > 0 && c.len() > 0 && a[0] == b[0] && b[0] == c[0] {
        lemma_lex_lt_trans(a.drop_first(), b.drop_first(), c.drop_first(), sl);
    }
}

pub proof fn lemma_lex_lt_total(a: Seq<char>, b: Seq<char>, sl: bool)
    requires
        a != b,
    ensures
        lex_lt(a, b, sl) || lex_lt(b, a, sl),
    decreases a.len(),
{
    if a.len() > 0 && b.len() > 0 && a[0] == b[0] {
        if a.drop_first() == b.drop_first() {
            assert(a =~= seq![a[0]] + a.drop_first());
            assert(b =~= seq![b[0]] + b.drop_first());
        }
        lemma_lex_lt_total(a.drop_first(), b.drop_first(), sl);
    } else if a.len() == 0 && b.len() == 0 {
        assert(a =~= b);
    }
}

pub proof fn lemma_seq_lt_irrefl(a: Seq<char>)
    ensures
        !seq_lt(a, a),
{
    lemma_lex_lt_irrefl(a, false);
}

pub proof fn lemma_seq_lt_trans(a: Seq<char>, b: Seq<char>, c: Seq<char>)
    requires
        seq_lt(a, b),
        seq_lt(b, c),
    ensures
        seq_lt(a, c),
{
    lemma_lex_lt_trans(a, b, c, false);
}

pub proof fn lemma_seq_lt_total(a: Seq<char>, b: Seq<char>)
    requires
        a != b,
    ensures
        seq_lt(a, b) || seq_lt(b, a),
{
    lemma_lex_lt_total(a, b, false);
}

/// `a` sorts strictly before `b`: as `str` does, or with `slash_low` as
/// paths do.
pub fn lex_less(a: &str, b: &str, slash_low: bool) -> (r: bool)
    ensures
        r == lex_lt(a@, b@, slash_low),
{
    let x = chars_of(a);
    let y = chars_of(b);
    let mut i: usize = 0;
    assert(a@.skip(0) =~= a@ && b@.skip(0) =~= b@);
    while i < x.len() && i < y.len()
        invariant
            i <= x.len(),
            i <= y.len(),
            x@ == a@,
            y@ == b@,
            lex_lt(a@, b@, slash_low) == lex_lt(a@.skip(i as int), b@.skip(i as int), slash_low),
        decreases x.len() - i,
    {
        if x[i] != y[i] {
            assert(a@.skip(i as int)[0] == x@[i as int]);
            assert(b@.skip(i as int)[0] == y@[i as int]);
            return if slash_low && x[i] == '/' {
                true
            } else if slash_low && y[i] == '/' {
                false
            } else {
                x[i] < y[i]
            };
        }
        assert(a@.skip(i as int).drop_first() =~= a@.skip(i + 1));
        assert(b@.skip(i as int).drop_first() =~= b@.skip(i + 1));
        i = i + 1;
    }
    i == x.len() && i < y.len()
}

/// `a` sorts strictly before `b` (`a < b` on `str`).
pub fn text_less(a: &str, b: &str) -> (r: bool)
    ensures
        r == seq_lt(a@, b@),
{
    lex_less(a, b, false)
}

} // verus!

verus! {

/// Strictly increasing under `lex_lt`.
pub open spec fn sorted_by(xs: Seq<Seq<char>>, slash_low: bool) -> bool {
    forall|i: int, j: int| 0 <= i < j < xs.len() ==> lex_lt(#[trigger] xs[i], #[trigger] xs[j], slash_low)
}

/// Adds `p` to a strictly sorted list unless it is there already.
pub fn insert_sorted_unique(out: &mut Vec<String>, p: &String, slash_low: bool)
    requires
        sorted_by(old(out).deep_view(), slash_low),
    ensures
        sorted_by(final(out).deep_view(), slash_low),
        final(out).deep_view().to_set() == old(out).deep_view().to_set().insert(p@),
{
    let ghost before = out.deep_view();
    let mut q: usize = 0;
    while q < out.len() && lex_less(out[q].as_str(), p.as_str(), slash_low)
        invariant
            q <= out.len(),
            out.deep_view() == before,
            forall|k: int| 0 <= k < q ==> lex_lt(before[k], p@, slash_low),
        decreases out.len() - q,
    {
        q = q + 1;
    }
    if q < out.len() && crate::discovery::json::same_text(out[q].as_str(), p.as_str()) {
        assert(before.to_set().insert(p@) =~= before.to_set()) by {
            assert(before.to_set().contains(before[q as int]));
        }
        return;
    }
    proof {
        if q < out.len() {
            lemma_lex_lt_total(before[q as int], p@, slash_low);
        }
    }
    out.insert(q, p.clone());
    assert(out.deep_view() =~= before.insert(q as int, p@));
    assert forall|a: int, b: int| 0 <= a < b < out.deep_view().len() implies
        lex_lt(#[trigger] out.deep_view()[a], #[trigger] out.deep_view()[b], slash_low) by {
        let v = out.deep_view();
        if b == q {
            assert(lex_lt(before[a], p@, slash_low));
        } else if a == q {
            assert(lex_lt(p@, before[q as int], slash_low));
            if b - 1 > q {
                assert(lex_lt(before[q as int], before[b - 1], slash_low));
                lemma_lex_lt_trans(p@, before[q as int], before[b - 1], slash_low);
            }
        } else {
            let a2 = if a < q { a } else { a - 1 };
            let b2 = if b < q { b } else { b - 1 };
            assert(lex_lt(before[a2], before[b2], slash_low));
        }
    }
    assert(out.deep_view().to_set() =~= before.to_set().insert(p@)) by {
        let v = out.deep_view();
        assert forall|x: Seq<char>| v.to_set().contains(x) implies before.to_set().insert(p@).contains(x) by {
            let w = choose|w: int| 0 <= w < v.len() && v[w] == x;
            if w < q { assert(before[w] == x); } else if w > q { assert(before[w - 1] == x); }
        }
        assert forall|x: Seq<char>| before.to_set().insert(p@).contains(x) implies v.to_set().contains(x) by {
            if x == p@ { assert(v[q as int] == x); } else {
                let w = choose|w: int| 0 <= w < before.len() && before[w] == x;
                if w < q { assert(v[w] == x); } else { assert(v[w + 1] == x); }
            }
        }
    }
}

} // verus!

verus! {

pub open spec fn ascii_upper(c: char) -> char {
    if 'a' <= c && c <= 'z' {
        ((c as u32) - 32) as char
    } else {
        c
    }
}

/// `to_ascii_uppercase`.
pub open spec fn ascii_upper_seq(s: Seq<char>) -> Seq<char> {
    Seq::new(s.len(), |i: int| ascii_upper(s[i]))
}

pub fn to_ascii_upper(s: &str) -> (r: String)
    ensures
        r@ == ascii_upper_seq(s@),
{
    let cs = chars_of(s);
    let mut r = String::new();
    let mut i: usize = 0;
    while i < cs.len()
        invariant
            i <= cs.len(),
            cs@ == s@,
            r@ == ascii_upper_seq(s@).take(i as int),
        decreases cs.len() - i,
    {
        let c = cs[i];
        let u = if 'a' <= c && c <= 'z' {
            let b: u8 = (c as u8) - 32;
            b as char
        } else {
            c
        };
        push_char(&mut r, u);
        i = i + 1;
        assert(r@ =~= ascii_upper_seq(s@).take(i as int));
    }
    assert(ascii_upper_seq(s@).take(i as int) =~= ascii_upper_seq(s@));
    r
}

} // verus!
