//! The exit-status marker a recipe line prints when it finishes.
use vstd::prelude::*;

verus! {

/// `ESC ] 1337 ; LazyjustDone=`, the bytes that open a marker.
pub open spec fn marker_prefix() -> Seq<u8> {
    seq![0x1bu8, 0x5du8, 0x31u8, 0x33u8, 0x33u8, 0x37u8, 0x3bu8, 0x4cu8, 0x61u8, 0x7au8,
        0x79u8, 0x6au8, 0x75u8, 0x73u8, 0x74u8, 0x44u8, 0x6fu8, 0x6eu8, 0x65u8, 0x3du8]
}

/// The BEL byte that closes a marker.
pub open spec fn bel() -> u8 {
    0x07u8
}

pub open spec fn is_digit(b: u8) -> bool {
    0x30 <= b <= 0x39
}

/// The value of a run of decimal digits.
pub open spec fn digits_value(ds: Seq<u8>) -> int
    decreases ds.len(),
{
    if ds.len() == 0 { 0 } else { digits_value(ds.drop_last()) * 10 + (ds.last() - 0x30) }
}

pub open spec fn all_digits(ds: Seq<u8>) -> bool {
    forall|i: int| 0 <= i < ds.len() ==> is_digit(#[trigger] ds[i])
}

/// The text after an optional leading sign.
pub open spec fn unsigned_part(s: Seq<u8>) -> Seq<u8> {
    if s.len() > 0 && (s[0] == 0x2du8 || s[0] == 0x2bu8) { s.drop_first() } else { s }
}

/// What `str::parse::<i32>` reads from these bytes: an optional sign then
/// at least one decimal digit, within the range of `i32`.
pub open spec fn parse_i32_spec(s: Seq<u8>) -> Option<i32> {
    let neg = s.len() > 0 && s[0] == 0x2du8;
    let ds = unsigned_part(s);
    if ds.len() == 0 || !all_digits(ds) {
        None
    } else {
        let v = if neg { -digits_value(ds) } else { digits_value(ds) };
        if i32::MIN <= v <= i32::MAX { Some(v as i32) } else { None }
    }
}

/// Position of the first BEL.
pub open spec fn first_bel(t: Seq<u8>) -> Option<int>
    decreases t.len(),
{
    if t.len() == 0 {
        None
    } else if t[0] == bel() {
        Some(0)
    } else {
        match first_bel(t.drop_first()) {
            Some(k) => Some(k + 1),
            None => None,
        }
    }
}

/// The marker at the start of `s`: its exit code and its length.
pub open spec fn marker_at(s: Seq<u8>) -> Option<(i32, int)> {
    if s.len() >= 20 && s.take(20) == marker_prefix() {
        match first_bel(s.skip(20)) {
            Some(r) => match parse_i32_spec(s.subrange(20, 20 + r)) {
                Some(c) => Some((c, 20 + r + 1)),
                None => None,
            },
            None => None,
        }
    } else {
        None
    }
}

/// The bytes with every well-formed marker removed, and the exit codes
/// the markers carried, in order.
pub open spec fn scan(s: Seq<u8>) -> (Seq<u8>, Seq<i32>)
    decreases s.len(),
{
    if s.len() == 0 {
        (Seq::empty(), Seq::empty())
    } else {
        match marker_at(s) {
            Some((c, n)) => if 0 < n <= s.len() {
                let r = scan(s.skip(n));
                (r.0, seq![c] + r.1)
            } else {
                (s, Seq::empty())
            },
            None => {
                let r = scan(s.drop_first());
                (seq![s[0]] + r.0, r.1)
            },
        }
    }
}

proof fn lemma_first_bel(t: Seq<u8>)
    ensures
        match first_bel(t) {
            Some(k) => 0 <= k < t.len() && t[k] == bel() && forall|j: int| 0 <= j < k ==> t[j] != bel(),
            None => forall|j: int| 0 <= j < t.len() ==> t[j] != bel(),
        },
    decreases t.len(),
{
    if t.len() > 0 {
        lemma_first_bel(t.drop_first());
        if t[0] != bel() {
            match first_bel(t.drop_first()) {
                Some(k) => {
                    assert forall|j: int| 0 <= j < k + 1 implies t[j] != bel() by {
                        if j > 0 { assert(t[j] == t.drop_first()[j - 1]); }
                    }
                },
                None => {
                    assert forall|j: int| 0 <= j < t.len() implies t[j] != bel() by {
                        if j > 0 { assert(t[j] == t.drop_first()[j - 1]); }
                    }
                },
            }
        }
    }
}

proof fn lemma_digits_value_grows(ds: Seq<u8>, k: int)
    requires
        0 <= k <= ds.len(),
        forall|i: int| 0 <= i < ds.len() ==> is_digit(#[trigger] ds[i]),
    ensures
        digits_value(ds) >= digits_value(ds.take(k)) >= 0,
    decreases ds.len() - k,
{
    if k < ds.len() {
        assert(ds.drop_last().take(k) =~= ds.take(k));
        lemma_digits_value_grows(ds.drop_last(), k);
        assert(is_digit(ds.last()));
    } else {
        assert(ds.take(k) =~= ds);
        lemma_digits_nonneg(ds);
    }
}

proof fn lemma_digits_nonneg(ds: Seq<u8>)
    requires
        forall|i: int| 0 <= i < ds.len() ==> is_digit(#[trigger] ds[i]),
    ensures
        digits_value(ds) >= 0,
    decreases ds.len(),
{
    if ds.len() > 0 {
        lemma_digits_nonneg(ds.drop_last());
        assert(is_digit(ds.last()));
    }
}

/// `str::parse::<i32>` on these bytes (read as text).
fn parse_i32(s: &[u8], from: usize, to: usize) -> (r: Option<i32>)
    requires
        from <= to <= s.len(),
    ensures
        r == parse_i32_spec(s@.subrange(from as int, to as int)),
{
    let ghost t = s@.subrange(from as int, to as int);
    if from == to {
        return None;
    }
    assert(t.len() > 0 && t[0] == s@[from as int]);
    let neg = s[from] == 0x2d;
    let start = if s[from] == 0x2d || s[from] == 0x2b { from + 1 } else { from };
    let ghost ds = s@.subrange(start as int, to as int);
    assert(ds =~= unsigned_part(t));
    if start == to {
        return None;
    }
    let limit: i64 = if neg { 2147483648 } else { 2147483647 };
    let mut acc: i64 = 0;
    let mut i: usize = start;
    while i < to
        invariant
            from <= start <= i <= to <= s.len(),
            start < to,
            ds == s@.subrange(start as int, to as int),
            t == s@.subrange(from as int, to as int),
            ds == unsigned_part(t),
            neg == (t.len() > 0 && t[0] == 0x2du8),
            limit == (if neg { 2147483648i64 } else { 2147483647i64 }),
            forall|k: int| 0 <= k < i - start ==> is_digit(#[trigger] ds[k]),
            acc == digits_value(ds.take(i - start)),
            0 <= acc <= limit,
        decreases to - i,
    {
        let b = s[i];
        if b < 0x30 || b > 0x39 {
            assert(ds[i - start] == s@[i as int]);
            assert(!is_digit(ds[i - start]));
            assert(!all_digits(ds));
            return None;
        }
        assert(ds.take(i - start + 1).drop_last() =~= ds.take(i - start));
        let d = (b - 0x30) as i64;
        if acc > (limit - d) / 10 {
            proof {
                assert(acc * 10 + d > limit) by (nonlinear_arith)
                    requires acc > (limit - d) / 10, 0 <= d <= 9, limit > 0;
                assert forall|k: int| 0 <= k < i - start + 1 implies is_digit(#[trigger] ds[k]) by {
                    if k == i - start { assert(ds[k] == b); }
                }
                if all_digits(ds) {
                    lemma_digits_value_grows(ds, i - start + 1);
                }
            }
            return None;
        }
        proof {
            assert(acc * 10 + d <= limit) by (nonlinear_arith)
                requires acc <= (limit - d) / 10, 0 <= d <= 9, limit > 0;
        }
        acc = acc * 10 + d;
        i = i + 1;
    }
    assert(ds.take(to - start) =~= ds);
    if neg {
        Some((-acc) as i32)
    } else {
        Some(acc as i32)
    }
}

} // verus!

verus! {

/// The decimal digits of `n`, as ASCII bytes.
pub open spec fn dec_bytes(n: nat) -> Seq<u8>
    decreases n,
{
    if n < 10 {
        seq![(n + 48) as u8]
    } else {
        dec_bytes(n / 10).push(((n % 10) + 48) as u8)
    }
}

/// What `printf %d` writes for an exit code.
pub open spec fn code_bytes(c: i32) -> Seq<u8> {
    if c < 0 { seq![0x2du8] + dec_bytes((-c) as nat) } else { dec_bytes(c as nat) }
}

/// The marker a recipe line prints when it finishes with code `c`.
pub open spec fn marker(c: i32) -> Seq<u8> {
    marker_prefix() + code_bytes(c) + seq![bel()]
}

/// No ESC byte, so no marker can start anywhere in the bytes.
pub open spec fn no_esc(a: Seq<u8>) -> bool {
    forall|i: int| 0 <= i < a.len() ==> a[i] != 0x1bu8
}

proof fn lemma_dec_bytes(n: nat)
    ensures
        dec_bytes(n).len() > 0,
        all_digits(dec_bytes(n)),
        digits_value(dec_bytes(n)) == n,
    decreases n,
{
    if n >= 10 {
        lemma_dec_bytes(n / 10);
        let d = dec_bytes(n);
        assert(d.drop_last() =~= dec_bytes(n / 10));
        assert forall|i: int| 0 <= i < d.len() implies is_digit(#[trigger] d[i]) by {
            if i < d.len() - 1 { assert(d[i] == dec_bytes(n / 10)[i]); }
        }
        assert(d.last() == ((n % 10) + 48) as u8);
        assert((d.last() - 0x30) as int == n % 10);
        assert(digits_value(d) == digits_value(dec_bytes(n / 10)) * 10 + (n % 10));
        assert((n / 10) * 10 + n % 10 == n) by (nonlinear_arith);
    } else {
        let d = dec_bytes(n);
        assert(d.drop_last() =~= Seq::<u8>::empty());
        assert(digits_value(d.drop_last()) == 0);
        assert(d.last() == (n + 48) as u8);
        assert(((n + 48) as u8) as int == n + 48);
        assert(digits_value(d) == n);
    }
}

proof fn lemma_parse_code(c: i32)
    ensures
        parse_i32_spec(code_bytes(c)) == Some(c),
        forall|i: int| 0 <= i < code_bytes(c).len() ==> #[trigger] code_bytes(c)[i] != bel()
            && code_bytes(c)[i] != 0x1bu8,
{
    let n: nat = if c < 0 { (-c) as nat } else { c as nat };
    lemma_dec_bytes(n);
    let t = code_bytes(c);
    assert(is_digit(dec_bytes(n)[0]));
    if c < 0 {
        assert(unsigned_part(t) =~= dec_bytes(n));
        assert forall|i: int| 0 <= i < t.len() implies #[trigger] t[i] != bel() && t[i] != 0x1bu8 by {
            if i > 0 { assert(t[i] == dec_bytes(n)[i - 1]); assert(is_digit(dec_bytes(n)[i - 1])); }
        }
    } else {
        assert(unsigned_part(t) =~= dec_bytes(n));
        assert forall|i: int| 0 <= i < t.len() implies #[trigger] t[i] != bel() && t[i] != 0x1bu8 by {
            assert(is_digit(dec_bytes(n)[i]));
        }
    }
}

proof fn lemma_first_bel_at(t: Seq<u8>, k: int)
    requires
        0 <= k < t.len(),
        t[k] == bel(),
        forall|j: int| 0 <= j < k ==> t[j] != bel(),
    ensures
        first_bel(t) == Some(k),
    decreases k,
{
    if k > 0 {
        lemma_first_bel_at(t.drop_first(), k - 1);
    }
}

/// Bytes without ESC pass through `scan` unchanged, whatever follows them.
proof fn lemma_scan_plain(a: Seq<u8>, rest: Seq<u8>)
    requires
        no_esc(a),
    ensures
        scan(a + rest) == (a + scan(rest).0, scan(rest).1),
    decreases a.len(),
{
    if a.len() == 0 {
        assert(a + rest =~= rest);
        assert(a + scan(rest).0 =~= scan(rest).0);
    } else {
        let s = a + rest;
        assert(s[0] == a[0]);
        assert(marker_prefix()[0] == 0x1bu8);
        if s.len() >= 20 && s.take(20) == marker_prefix() {
            assert(s.take(20)[0] == s[0]);
        }
        assert(marker_at(s) is None);
        lemma_scan_plain(a.drop_first(), rest);
        assert(s.drop_first() =~= a.drop_first() + rest);
        assert(seq![a[0]] + (a.drop_first() + scan(rest).0) =~= a + scan(rest).0);
    }
}

proof fn lemma_scan_marker(c: i32, b: Seq<u8>)
    requires
        no_esc(b),
    ensures
        scan(marker(c) + b) == (b, seq![c]),
{
    let cb = code_bytes(c);
    let s = marker(c) + b;
    lemma_parse_code(c);
    assert(marker_prefix().len() == 20);
    assert(s.take(20) =~= marker_prefix());
    let t = s.skip(20);
    assert(t =~= cb + seq![bel()] + b);
    assert forall|j: int| 0 <= j < cb.len() implies t[j] != bel() by {
        assert(t[j] == cb[j]);
    }
    lemma_first_bel_at(t, cb.len() as int);
    assert(s.subrange(20, 20 + cb.len() as int) =~= cb);
    let n: int = 20 + cb.len() as int + 1;
    assert(marker_at(s) == Some((c, n)));
    assert(s.skip(n) =~= b);
    lemma_scan_plain(b, Seq::empty());
    assert(b + Seq::<u8>::empty() =~= b);
    assert(scan(Seq::<u8>::empty()) == (Seq::<u8>::empty(), Seq::<i32>::empty()));
    assert(scan(b) == (b, Seq::<i32>::empty()));
    assert(seq![c] + Seq::<i32>::empty() =~= seq![c]);
}

/// Completion markers come out of a session's output and their codes are
/// captured: output without ESC bytes passes through unchanged, and a
/// marker for code `c` between two such stretches is removed, leaving the
/// two stretches joined and `c` as the one code.
pub proof fn law_done_marker_removed(a: Seq<u8>, b: Seq<u8>, c: i32)
    requires
        no_esc(a),
        no_esc(b),
    ensures
        scan(a) == (a, Seq::<i32>::empty()),
        scan(a + marker(c) + b) == (a + b, seq![c]),
{
    lemma_scan_plain(a, Seq::empty());
    assert(a + Seq::<u8>::empty() =~= a);
    assert(scan(Seq::<u8>::empty()) == (Seq::<u8>::empty(), Seq::<i32>::empty()));
    assert(a + Seq::<u8>::empty() == a);
    lemma_scan_marker(c, b);
    lemma_scan_plain(a, marker(c) + b);
    assert(a + marker(c) + b =~= a + (marker(c) + b));
}

} // verus!

verus! {

/// The marker at `input[i..]`, if one starts there.
fn marker_at_exec(input: &[u8], i: usize) -> (r: Option<(i32, usize)>)
    requires
        i <= input.len(),
    ensures
        match marker_at(input@.skip(i as int)) {
            Some((c, n)) => r == Some((c, n as usize)) && 0 < n <= input.len() - i,
            None => r is None,
        },
{
    let ghost s = input@.skip(i as int);
    let prefix: Vec<u8> = vec![0x1bu8, 0x5du8, 0x31u8, 0x33u8, 0x33u8, 0x37u8, 0x3bu8, 0x4cu8, 0x61u8, 0x7au8,
        0x79u8, 0x6au8, 0x75u8, 0x73u8, 0x74u8, 0x44u8, 0x6fu8, 0x6eu8, 0x65u8, 0x3du8];
    assert(prefix@ =~= marker_prefix());
    if input.len() - i < 20 {
        return None;
    }
    let mut k: usize = 0;
    while k < 20
        invariant
            k <= 20,
            i + 20 <= input.len(),
            s == input@.skip(i as int),
            prefix@ == marker_prefix(),
            forall|j: int| 0 <= j < k ==> s[j] == prefix@[j],
        decreases 20 - k,
    {
        if input[i + k] != prefix[k] {
            assert(s.take(20)[k as int] != marker_prefix()[k as int]);
            return None;
        }
        k = k + 1;
    }
    assert(s.take(20) =~= marker_prefix());
    let start = i + 20;
    let mut b: usize = start;
    proof { lemma_first_bel(s.skip(20)); }
    while b < input.len() && input[b] != 0x07
        invariant
            start <= b <= input.len(),
            start == i + 20,
            s == input@.skip(i as int),
            forall|j: int| start <= j < b ==> input@[j] != bel(),
        decreases input.len() - b,
    {
        b = b + 1;
    }
    if b == input.len() {
        assert forall|j: int| 0 <= j < s.skip(20).len() implies s.skip(20)[j] != bel() by {
            assert(s.skip(20)[j] == input@[start + j]);
        }
        assert(first_bel(s.skip(20)) is None) by {
            lemma_first_bel(s.skip(20));
            if first_bel(s.skip(20)) is Some {
                let kk = first_bel(s.skip(20))->0;
                assert(s.skip(20)[kk] == bel());
            }
        }
        return None;
    }
    let ghost rel = b - start;
    assert(first_bel(s.skip(20)) == Some(rel)) by {
        lemma_first_bel(s.skip(20));
        assert(s.skip(20)[rel] == input@[b as int]);
        match first_bel(s.skip(20)) {
            Some(kk) => {
                if kk < rel { assert(s.skip(20)[kk] == input@[start + kk]); }
                if kk > rel { assert(s.skip(20)[rel] != bel()); }
            },
            None => { assert(s.skip(20)[rel] != bel()); },
        }
    }
    assert(s.subrange(20, 20 + rel) =~= input@.subrange(start as int, b as int));
    match parse_i32(input, start, b) {
        Some(c) => Some((c, b + 1 - i)),
        None => None,
    }
}

/// Removes every `ESC ] 1337 ; LazyjustDone=<code> BEL` marker from a chunk
/// of terminal output and returns the remaining bytes with the codes the
/// markers carried. A marker whose code is not an `i32` stays in the output.
pub fn scan_done_marker(input: &[u8]) -> (r: (Vec<u8>, Vec<i32>))
    ensures
        (r.0@, r.1@) == scan(input@),
{
    let mut out: Vec<u8> = Vec::new();
    let mut codes: Vec<i32> = Vec::new();
    let mut i: usize = 0;
    assert(input@.skip(0) =~= input@);
    while i < input.len()
        invariant
            i <= input.len(),
            scan(input@) == (out@ + scan(input@.skip(i as int)).0, codes@ + scan(input@.skip(i as int)).1),
        decreases input.len() - i,
    {
        let ghost s = input@.skip(i as int);
        match marker_at_exec(input, i) {
            Some((c, n)) => {
                assert(s.skip(n as int) =~= input@.skip(i + n));
                codes.push(c);
                i = i + n;
                assert(codes@ + scan(input@.skip(i as int)).1 =~= codes@.drop_last() + (seq![c] + scan(s.skip(n as int)).1));
            },
            None => {
                assert(s.drop_first() =~= input@.skip(i + 1));
                assert(s[0] == input@[i as int]);
                out.push(input[i]);
                i = i + 1;
                assert(out@ + scan(input@.skip(i as int)).0 =~= out@.drop_last() + (seq![s[0]] + scan(s.drop_first()).0));
            },
        }
    }
    assert(input@.skip(i as int) =~= Seq::<u8>::empty());
    assert(out@ + Seq::<u8>::empty() =~= out@);
    assert(codes@ + Seq::<i32>::empty() =~= codes@);
    (out, codes)
}

} // verus!
