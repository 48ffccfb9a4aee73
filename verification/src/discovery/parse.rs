//! Reading `just --dump --dump-format=json` into recipes.
use vstd::prelude::*;
use crate::app::types::{Param, ParamKind, ParamView, Recipe, RecipeView};
use crate::discovery::json::{JsonValue, field, get_field, parse_json, same_text, serde_json_reading, str_of};
use crate::error::Error;
use crate::text::{lemma_seq_lt_irrefl, lemma_seq_lt_total, lemma_seq_lt_trans, push_str, seq_lt};

verus! {

// ------------------------------------------------------------ decoding
//
// The dump is read as serde reads it into its record types: a record is a
// JSON object (unknown keys ignored) or an array of its fields in order;
// fields marked optional default when absent.

pub open spec fn msg_invalid(expected: Seq<char>) -> Seq<char> {
    "invalid type, expected "@ + expected
}

pub open spec fn msg_missing(name: Seq<char>) -> Seq<char> {
    "missing field `"@ + name + "`"@
}

pub open spec fn msg_trailing() -> Seq<char> {
    "trailing characters"@
}

/// The fields `names` of a record, absent ones as `None`.
pub open spec fn record_fields(v: JsonValue, names: Seq<Seq<char>>, what: Seq<char>) -> Result<Seq<Option<JsonValue>>, Seq<char>> {
    match v {
        JsonValue::Object(es) => Ok(names.map_values(|n: Seq<char>| field(es@, n))),
        JsonValue::Array(items) =>
            if items@.len() > names.len() {
                Err(msg_trailing())
            } else {
                Ok(Seq::new(names.len(), |i: int| if i < items@.len() { Some(items@[i]) } else { None }))
            },
        _ => Err(msg_invalid(what)),
    }
}

/// A required string field.
pub open spec fn req_string(v: Option<JsonValue>, name: Seq<char>) -> Result<Seq<char>, Seq<char>> {
    match v {
        None => Err(msg_missing(name)),
        Some(JsonValue::Str(s)) => Ok(s@),
        Some(_) => Err(msg_invalid("a string"@)),
    }
}

/// An optional string field (`null` reads as absent).
pub open spec fn opt_string(v: Option<JsonValue>) -> Result<Option<Seq<char>>, Seq<char>> {
    match v {
        None => Ok(None),
        Some(JsonValue::Null) => Ok(None),
        Some(JsonValue::Str(s)) => Ok(Some(s@)),
        Some(_) => Err(msg_invalid("a string"@)),
    }
}

/// A string field with a default.
pub open spec fn def_string(v: Option<JsonValue>, default: Seq<char>) -> Result<Seq<char>, Seq<char>> {
    match v {
        None => Ok(default),
        Some(JsonValue::Str(s)) => Ok(s@),
        Some(_) => Err(msg_invalid("a string"@)),
    }
}

/// A boolean field defaulting to `false`.
pub open spec fn def_bool(v: Option<JsonValue>) -> Result<bool, Seq<char>> {
    match v {
        None => Ok(false),
        Some(JsonValue::Bool(b)) => Ok(b),
        Some(_) => Err(msg_invalid("a boolean"@)),
    }
}

/// A list field defaulting to empty.
pub open spec fn def_array(v: Option<JsonValue>) -> Result<Seq<JsonValue>, Seq<char>> {
    match v {
        None => Ok(Seq::empty()),
        Some(JsonValue::Array(a)) => Ok(a@),
        Some(_) => Err(msg_invalid("a sequence"@)),
    }
}

pub open spec fn param_names() -> Seq<Seq<char>> {
    seq!["name"@, "default"@, "kind"@]
}

pub open spec fn kind_of(k: Seq<char>) -> ParamKind {
    if k == "plus"@ || k == "star"@ { ParamKind::Variadic } else { ParamKind::Positional }
}

pub open spec fn decode_param(v: JsonValue) -> Result<ParamView, Seq<char>> {
    match record_fields(v, param_names(), "struct RawParam"@) {
        Err(m) => Err(m),
        Ok(fs) => match req_string(fs[0], "name"@) {
            Err(m) => Err(m),
            Ok(name) => match opt_string(fs[1]) {
                Err(m) => Err(m),
                Ok(default) => match def_string(fs[2], "singular"@) {
                    Err(m) => Err(m),
                    Ok(kind) => Ok(ParamView { name, default, kind: kind_of(kind) }),
                },
            },
        },
    }
}

/// A parameter object decodes to a variadic parameter exactly when its
/// `kind` is `plus` (`+args`) or `star` (`*args`); any other kind, or none
/// (`singular` by default), gives a positional parameter.
pub proof fn law_param_kind(es: Vec<(String, JsonValue)>, p: ParamView)
    requires
        decode_param(JsonValue::Object(es)) == Ok::<ParamView, Seq<char>>(p),
    ensures
        (field(es@, "kind"@) matches Some(JsonValue::Str(k)) && k@ == "plus"@) ==> p.kind == ParamKind::Variadic,
        (field(es@, "kind"@) matches Some(JsonValue::Str(k)) && k@ == "star"@) ==> p.kind == ParamKind::Variadic,
        (field(es@, "kind"@) matches Some(JsonValue::Str(k)) && k@ != "plus"@ && k@ != "star"@) ==> p.kind == ParamKind::Positional,
        (field(es@, "kind"@) is None) ==> p.kind == ParamKind::Positional,
{
    reveal_strlit("plus");
    reveal_strlit("star");
    reveal_strlit("singular");
    let fs = param_names().map_values(|n: Seq<char>| field(es@, n));
    assert(fs[2] == field(es@, "kind"@));
    assert("singular"@.len() != "plus"@.len() && "singular"@.len() != "star"@.len());
    assert(kind_of("singular"@) == ParamKind::Positional);
    assert(record_fields(JsonValue::Object(es), param_names(), "struct RawParam"@) == Ok::<Seq<Option<JsonValue>>, Seq<char>>(fs));
}

pub open spec fn decode_dep(v: JsonValue) -> Result<Seq<char>, Seq<char>> {
    match record_fields(v, seq!["recipe"@], "struct RawDep"@) {
        Err(m) => Err(m),
        Ok(fs) => req_string(fs[0], "recipe"@),
    }
}

/// Each item decoded in turn; the first failure wins.
pub open spec fn decode_params(items: Seq<JsonValue>) -> Result<Seq<ParamView>, Seq<char>>
    decreases items.len(),
{
    if items.len() == 0 {
        Ok(Seq::empty())
    } else {
        match decode_params(items.drop_last()) {
            Err(m) => Err(m),
            Ok(ps) => match decode_param(items.last()) {
                Err(m) => Err(m),
                Ok(p) => Ok(ps.push(p)),
            },
        }
    }
}

pub open spec fn decode_deps(items: Seq<JsonValue>) -> Result<Seq<Seq<char>>, Seq<char>>
    decreases items.len(),
{
    if items.len() == 0 {
        Ok(Seq::empty())
    } else {
        match decode_deps(items.drop_last()) {
            Err(m) => Err(m),
            Ok(ds) => match decode_dep(items.last()) {
                Err(m) => Err(m),
                Ok(d) => Ok(ds.push(d)),
            },
        }
    }
}

pub open spec fn recipe_field_names() -> Seq<Seq<char>> {
    seq!["parameters"@, "body"@, "doc"@, "attributes"@, "private"@, "dependencies"@]
}

/// The recipe `name` as the dump describes it, `None` when it is private.
pub open spec fn decode_recipe(name: Seq<char>, v: JsonValue) -> Result<Option<RecipeView>, Seq<char>> {
    match record_fields(v, recipe_field_names(), "struct RawRecipe"@) {
        Err(m) => Err(m),
        Ok(fs) => match def_array(fs[0]) {
            Err(m) => Err(m),
            Ok(raw_params) => match decode_params(raw_params) {
                Err(m) => Err(m),
                Ok(params) => match def_array(fs[1]) {
                    Err(m) => Err(m),
                    Ok(body) => match opt_string(fs[2]) {
                        Err(m) => Err(m),
                        Ok(doc) => match def_array(fs[3]) {
                            Err(m) => Err(m),
                            Ok(attrs) => match def_bool(fs[4]) {
                                Err(m) => Err(m),
                                Ok(private) => match def_array(fs[5]) {
                                    Err(m) => Err(m),
                                    Ok(raw_deps) => match decode_deps(raw_deps) {
                                        Err(m) => Err(m),
                                        Ok(deps) => Ok(if private { None } else {
                                            Some(RecipeView {
                                                name,
                                                modules: Seq::empty(),
                                                group: extract_group_spec(attrs),
                                                params,
                                                doc: match doc { Some(d) => if d.len() > 0 { Some(d) } else { None }, None => None },
                                                command_preview: render_body_spec(body),
                                                runs: Seq::empty(),
                                                dependencies: deps,
                                            })
                                        }),
                                    },
                                },
                            },
                        },
                    },
                },
            },
        },
    }
}

// ------------------------------------------------------------ group

/// `s` without every trailing `)`.
pub open spec fn trim_close_parens(s: Seq<char>) -> Seq<char>
    decreases s.len(),
{
    if s.len() > 0 && s.last() == ')' { trim_close_parens(s.drop_last()) } else { s }
}

pub open spec fn is_quote(c: char) -> bool {
    c == '\'' || c == '"'
}

pub open spec fn trim_quotes_end(s: Seq<char>) -> Seq<char>
    decreases s.len(),
{
    if s.len() > 0 && is_quote(s.last()) { trim_quotes_end(s.drop_last()) } else { s }
}

pub open spec fn trim_quotes_start(s: Seq<char>) -> Seq<char>
    decreases s.len(),
{
    if s.len() > 0 && is_quote(s[0]) { trim_quotes_start(s.drop_first()) } else { s }
}

/// The group an attribute names: `{"group": "x"}`, or the string form
/// `group('x')` that some `just` versions emit.
pub open spec fn attr_group(a: JsonValue) -> Option<Seq<char>> {
    match a {
        JsonValue::Object(es) => match field(es@, "group"@) {
            Some(JsonValue::Str(g)) => Some(g@),
            _ => None,
        },
        JsonValue::Str(s) =>
            if s@.len() >= 6 && s@.take(6) == "group("@ {
                Some(trim_quotes_start(trim_quotes_end(trim_close_parens(s@.skip(6)))))
            } else {
                None
            },
        _ => None,
    }
}

/// The first group any attribute names.
pub open spec fn extract_group_spec(attrs: Seq<JsonValue>) -> Option<Seq<char>>
    decreases attrs.len(),
{
    if attrs.len() == 0 {
        None
    } else {
        match attr_group(attrs[0]) {
            Some(g) => Some(g),
            None => extract_group_spec(attrs.drop_first()),
        }
    }
}

// ------------------------------------------------------------ body

/// The strings among `parts`, in order.
pub open spec fn strings_among(parts: Seq<JsonValue>) -> Seq<Seq<char>>
    decreases parts.len(),
{
    if parts.len() == 0 {
        Seq::empty()
    } else {
        let rest = strings_among(parts.drop_last());
        match parts.last() {
            JsonValue::Str(s) => rest.push(s@),
            _ => rest,
        }
    }
}

/// One fragment of a body line: literal text, or an interpolation shown as
/// `{{name}}` with the second string of the fragment as the name.
pub open spec fn fragment_text(f: JsonValue) -> Seq<char> {
    match f {
        JsonValue::Str(s) => s@,
        JsonValue::Array(parts) => {
            let ss = strings_among(parts@);
            "{{"@ + (if ss.len() > 1 { ss[1] } else { Seq::empty() }) + "}}"@
        },
        _ => Seq::empty(),
    }
}

pub open spec fn fragments_text(fs: Seq<JsonValue>) -> Seq<char>
    decreases fs.len(),
{
    if fs.len() == 0 { Seq::empty() } else { fragments_text(fs.drop_last()) + fragment_text(fs.last()) }
}

/// The lines of a body: whole-line strings and fragment lists; other
/// values are skipped.
pub open spec fn body_lines(body: Seq<JsonValue>) -> Seq<Seq<char>>
    decreases body.len(),
{
    if body.len() == 0 {
        Seq::empty()
    } else {
        let rest = body_lines(body.drop_last());
        match body.last() {
            JsonValue::Str(s) => rest.push(s@),
            JsonValue::Array(fs) => rest.push(fragments_text(fs@)),
            _ => rest,
        }
    }
}

/// Lines joined with `\n`.
pub open spec fn join_lines(ls: Seq<Seq<char>>) -> Seq<char>
    decreases ls.len(),
{
    if ls.len() == 0 {
        Seq::empty()
    } else if ls.len() == 1 {
        ls[0]
    } else {
        join_lines(ls.drop_last()) + "\n"@ + ls.last()
    }
}

pub open spec fn render_body_spec(body: Seq<JsonValue>) -> Seq<char> {
    join_lines(body_lines(body))
}

} // verus!

verus! {

fn strings_of(parts: &Vec<JsonValue>) -> (r: Vec<&String>)
    ensures
        r@.map_values(|s: &String| s@) == strings_among(parts@),
{
    let mut r: Vec<&String> = Vec::new();
    let mut i: usize = 0;
    while i < parts.len()
        invariant
            i <= parts.len(),
            r@.map_values(|s: &String| s@) == strings_among(parts@.take(i as int)),
        decreases parts.len() - i,
    {
        assert(parts@.take(i + 1).drop_last() == parts@.take(i as int));
        match &parts[i] {
            JsonValue::Str(s) => {
                r.push(s);
            },
            _ => {},
        }
        i = i + 1;
        assert(r@.map_values(|s: &String| s@) =~= strings_among(parts@.take(i as int)));
    }
    assert(parts@.take(i as int) == parts@);
    r
}

fn push_fragment(buf: &mut String, f: &JsonValue)
    ensures
        final(buf)@ == old(buf)@ + fragment_text(*f),
{
    match f {
        JsonValue::Str(s) => push_str(buf, s.as_str()),
        JsonValue::Array(parts) => {
            let ss = strings_of(parts);
            push_str(buf, "{{");
            if ss.len() > 1 {
                assert(ss@.map_values(|s: &String| s@)[1] == ss@[1]@);
                push_str(buf, ss[1].as_str());
            }
            push_str(buf, "}}");
            assert(buf@ =~= old(buf)@ + fragment_text(*f));
        },
        _ => {
            assert(old(buf)@ + fragment_text(*f) =~= old(buf)@);
        },
    }
}

/// The preview of a recipe body: its lines joined with `\n`, fragment
/// lists flattened, interpolations shown as `{{name}}`.
pub fn render_body(body: &Vec<JsonValue>) -> (r: String)
    ensures
        r@ == render_body_spec(body@),
{
    let mut out = String::new();
    let mut lines: usize = 0;
    let mut i: usize = 0;
    while i < body.len()
        invariant
            i <= body.len(),
            out@ == join_lines(body_lines(body@.take(i as int))),
            lines == body_lines(body@.take(i as int)).len(),
            lines <= i,
        decreases body.len() - i,
    {
        assert(body@.take(i + 1).drop_last() == body@.take(i as int));
        let ghost prev = body_lines(body@.take(i as int));
        match &body[i] {
            JsonValue::Str(s) => {
                if lines > 0 {
                    push_str(&mut out, "\n");
                }
                push_str(&mut out, s.as_str());
                lines = lines + 1;
                assert(body_lines(body@.take(i + 1)) == prev.push(s@));
                assert(prev.push(s@).drop_last() == prev);
                assert(lines > 1 ==> out@ =~= join_lines(prev) + "\n"@ + s@);
                assert(lines == 1 ==> out@ =~= s@);
            },
            JsonValue::Array(fs) => {
                let mut buf = String::new();
                let mut k: usize = 0;
                while k < fs.len()
                    invariant
                        k <= fs.len(),
                        buf@ == fragments_text(fs@.take(k as int)),
                    decreases fs.len() - k,
                {
                    assert(fs@.take(k + 1).drop_last() == fs@.take(k as int));
                    push_fragment(&mut buf, &fs[k]);
                    k = k + 1;
                }
                assert(fs@.take(k as int) == fs@);
                if lines > 0 {
                    push_str(&mut out, "\n");
                }
                push_str(&mut out, buf.as_str());
                lines = lines + 1;
                assert(body_lines(body@.take(i + 1)) == prev.push(buf@));
                assert(prev.push(buf@).drop_last() == prev);
                assert(lines > 1 ==> out@ =~= join_lines(prev) + "\n"@ + buf@);
                assert(lines == 1 ==> out@ =~= buf@);
            },
            _ => {
                assert(body_lines(body@.take(i + 1)) == prev);
            },
        }
        i = i + 1;
    }
    assert(body@.take(i as int) == body@);
    out
}

} // verus!

verus! {

proof fn lemma_trim_close_parens_prefix(s: Seq<char>, n: int)
    requires
        0 <= n <= s.len(),
        forall|k: int| n <= k < s.len() ==> s[k] == ')',
    ensures
        trim_close_parens(s) == trim_close_parens(s.take(n)),
    decreases s.len() - n,
{
    if n < s.len() {
        assert(s.drop_last() =~= s.drop_last().take(s.len() - 1));
        lemma_trim_close_parens_prefix(s.drop_last(), n);
        assert(s.drop_last().take(n) =~= s.take(n));
    } else {
        assert(s.take(n) =~= s);
    }
}

proof fn lemma_trim_quotes_end_prefix(s: Seq<char>, n: int)
    requires
        0 <= n <= s.len(),
        forall|k: int| n <= k < s.len() ==> is_quote(s[k]),
    ensures
        trim_quotes_end(s) == trim_quotes_end(s.take(n)),
    decreases s.len() - n,
{
    if n < s.len() {
        lemma_trim_quotes_end_prefix(s.drop_last(), n);
        assert(s.drop_last().take(n) =~= s.take(n));
    } else {
        assert(s.take(n) =~= s);
    }
}

proof fn lemma_trim_quotes_start_suffix(s: Seq<char>, n: int)
    requires
        0 <= n <= s.len(),
        forall|k: int| 0 <= k < n ==> is_quote(s[k]),
    ensures
        trim_quotes_start(s) == trim_quotes_start(s.skip(n)),
    decreases n,
{
    if n > 0 {
        lemma_trim_quotes_start_suffix(s.drop_first(), n - 1);
        assert(s.drop_first().skip(n - 1) =~= s.skip(n));
    } else {
        assert(s.skip(0) =~= s);
    }
}

/// The group named by the string form `group('x')`, if `s` has it.
fn string_attr_group(s: &String) -> (r: Option<String>)
    ensures
        r.deep_view() == attr_group(JsonValue::Str(*s)),
{
    proof { reveal_strlit("group("); }
    let cs = crate::text::chars_of(s.as_str());
    let prefix = crate::text::chars_of("group(");
    assert(prefix@.len() == 6);
    assert(cs@ == s@);
    if cs.len() < 6 {
        return None;
    }
    let mut i: usize = 0;
    while i < 6
        invariant
            i <= 6,
            cs.len() >= 6,
            cs@ == s@,
            prefix@ == "group("@,
            prefix@.len() == 6,
            forall|k: int| 0 <= k < i ==> cs@[k] == prefix@[k],
        decreases 6 - i,
    {
        if cs[i] != prefix[i] {
            assert(s@.take(6)[i as int] != "group("@[i as int]);
            assert(s@.take(6) != "group("@);
            assert(attr_group(JsonValue::Str(*s)) is None);
            return None;
        }
        i = i + 1;
    }
    assert(cs@.take(6) =~= "group("@);
    let ghost rest = cs@.skip(6);
    let mut end: usize = cs.len();
    while end > 6 && cs[end - 1] == ')'
        invariant
            6 <= end <= cs.len(),
            rest == cs@.skip(6),
            forall|k: int| end - 6 <= k < rest.len() ==> rest[k] == ')',
        decreases end,
    {
        end = end - 1;
    }
    let ghost t1 = cs@.subrange(6, end as int);
    proof {
        lemma_trim_close_parens_prefix(rest, end - 6);
        assert(rest.take(end - 6) =~= t1);
    }
    assert(trim_close_parens(rest) == t1);
    let mut e2: usize = end;
    while e2 > 6 && (cs[e2 - 1] == '\'' || cs[e2 - 1] == '"')
        invariant
            6 <= e2 <= end <= cs.len(),
            t1 == cs@.subrange(6, end as int),
            forall|k: int| e2 - 6 <= k < t1.len() ==> is_quote(t1[k]),
        decreases e2,
    {
        e2 = e2 - 1;
    }
    let ghost t2 = cs@.subrange(6, e2 as int);
    proof {
        lemma_trim_quotes_end_prefix(t1, e2 - 6);
        assert(t1.take(e2 - 6) =~= t2);
    }
    assert(trim_quotes_end(t1) == t2);
    let mut b: usize = 6;
    while b < e2 && (cs[b] == '\'' || cs[b] == '"')
        invariant
            6 <= b <= e2 <= cs.len(),
            t2 == cs@.subrange(6, e2 as int),
            forall|k: int| 0 <= k < b - 6 ==> is_quote(t2[k]),
        decreases e2 - b,
    {
        b = b + 1;
    }
    let ghost t3 = cs@.subrange(b as int, e2 as int);
    proof {
        lemma_trim_quotes_start_suffix(t2, b - 6);
        assert(t2.skip(b - 6) =~= t3);
    }
    assert(trim_quotes_start(t2) == t3);
    let mut g = String::new();
    let mut k: usize = b;
    while k < e2
        invariant
            b <= k <= e2,
            e2 <= cs.len(),
            g@ == cs@.subrange(b as int, k as int),
        decreases e2 - k,
    {
        crate::text::push_char(&mut g, cs[k]);
        k = k + 1;
        assert(g@ =~= cs@.subrange(b as int, k as int));
    }
    assert(g@ == t3);
    assert(attr_group(JsonValue::Str(*s)) == Some(t3));
    Some(g)
}

/// The group of a recipe: the first attribute that names one.
pub fn extract_group(attrs: &Vec<JsonValue>) -> (r: Option<String>)
    ensures
        r.deep_view() == extract_group_spec(attrs@),
{
    let mut i: usize = 0;
    assert(attrs@.skip(0) =~= attrs@);
    while i < attrs.len()
        invariant
            i <= attrs.len(),
            extract_group_spec(attrs@) == extract_group_spec(attrs@.skip(i as int)),
        decreases attrs.len() - i,
    {
        assert(attrs@.skip(i as int)[0] == attrs@[i as int]);
        assert(attrs@.skip(i as int).drop_first() =~= attrs@.skip(i + 1));
        match &attrs[i] {
            JsonValue::Object(es) => {
                match get_field(es, "group") {
                    Some(JsonValue::Str(g)) => {
                        return Some(g.clone());
                    },
                    _ => {},
                }
            },
            JsonValue::Str(s) => {
                match string_attr_group(s) {
                    Some(g) => {
                        return Some(g);
                    },
                    None => {},
                }
            },
            _ => {},
        }
        i = i + 1;
    }
    None
}

} // verus!

verus! {

pub(crate) fn text(s: &str) -> (r: String)
    ensures
        r@ == s@,
{
    let mut r = String::new();
    push_str(&mut r, s);
    r
}

fn invalid(expected: &str) -> (r: String)
    ensures
        r@ == msg_invalid(expected@),
{
    let mut r = text("invalid type, expected ");
    push_str(&mut r, expected);
    r
}

fn missing(name: &str) -> (r: String)
    ensures
        r@ == msg_missing(name@),
{
    let mut r = text("missing field `");
    push_str(&mut r, name);
    push_str(&mut r, "`");
    r
}

/// Whether `v` can hold a record of `count` fields (an object, or an array
/// of at most `count` items), with the error otherwise.
fn check_record(v: &JsonValue, count: usize, what: &str) -> (r: Result<(), String>)
    ensures
        match r {
            Ok(_) => v is Object || (v matches JsonValue::Array(items) && items@.len() <= count),
            Err(e) => (v matches JsonValue::Array(items) && items@.len() > count && e@ == msg_trailing())
                || (!(v is Object) && !(v is Array) && e@ == msg_invalid(what@)),
        },
{
    match v {
        JsonValue::Object(_) => Ok(()),
        JsonValue::Array(items) => if items.len() > count { Err(text("trailing characters")) } else { Ok(()) },
        _ => Err(invalid(what)),
    }
}

/// Field `name`, at position `pos` in the array form.
fn record_field<'a>(v: &'a JsonValue, name: &str, pos: usize) -> (r: Option<&'a JsonValue>)
    ensures
        match *v {
            JsonValue::Object(es) => match field(es@, name@) {
                Some(x) => r == Some(&x),
                None => r is None,
            },
            JsonValue::Array(items) => if pos < items@.len() { r == Some(&items@[pos as int]) } else { r is None },
            _ => r is None,
        },
{
    match v {
        JsonValue::Object(es) => get_field(es, name),
        JsonValue::Array(items) => if pos < items.len() { Some(&items[pos]) } else { None },
        _ => None,
    }
}

pub open spec fn deref_opt(f: Option<&JsonValue>) -> Option<JsonValue> {
    match f {
        Some(x) => Some(*x),
        None => None,
    }
}

} // verus!

verus! {

fn read_req_string(f: Option<&JsonValue>, name: &str) -> (r: Result<String, String>)
    ensures
        match r {
            Ok(s) => req_string(deref_opt(f), name@) == Ok::<Seq<char>, Seq<char>>(s@),
            Err(e) => req_string(deref_opt(f), name@) == Err::<Seq<char>, Seq<char>>(e@),
        },
{
    match f {
        None => Err(missing(name)),
        Some(JsonValue::Str(s)) => Ok(s.clone()),
        Some(_) => Err(invalid("a string")),
    }
}

fn read_opt_string(f: Option<&JsonValue>) -> (r: Result<Option<String>, String>)
    ensures
        match r {
            Ok(s) => opt_string(deref_opt(f)) == Ok::<Option<Seq<char>>, Seq<char>>(s.deep_view()),
            Err(e) => opt_string(deref_opt(f)) == Err::<Option<Seq<char>>, Seq<char>>(e@),
        },
{
    match f {
        None => Ok(None),
        Some(JsonValue::Null) => Ok(None),
        Some(JsonValue::Str(s)) => Ok(Some(s.clone())),
        Some(_) => Err(invalid("a string")),
    }
}

fn read_def_string(f: Option<&JsonValue>, default: &str) -> (r: Result<String, String>)
    ensures
        match r {
            Ok(s) => def_string(deref_opt(f), default@) == Ok::<Seq<char>, Seq<char>>(s@),
            Err(e) => def_string(deref_opt(f), default@) == Err::<Seq<char>, Seq<char>>(e@),
        },
{
    match f {
        None => Ok(text(default)),
        Some(JsonValue::Str(s)) => Ok(s.clone()),
        Some(_) => Err(invalid("a string")),
    }
}

fn read_def_bool(f: Option<&JsonValue>) -> (r: Result<bool, String>)
    ensures
        match r {
            Ok(b) => def_bool(deref_opt(f)) == Ok::<bool, Seq<char>>(b),
            Err(e) => def_bool(deref_opt(f)) == Err::<bool, Seq<char>>(e@),
        },
{
    match f {
        None => Ok(false),
        Some(JsonValue::Bool(b)) => Ok(*b),
        Some(_) => Err(invalid("a boolean")),
    }
}

/// A list field; `None` stands for the empty default.
fn read_def_array<'a>(f: Option<&'a JsonValue>) -> (r: Result<Option<&'a Vec<JsonValue>>, String>)
    ensures
        match r {
            Ok(Some(a)) => def_array(deref_opt(f)) == Ok::<Seq<JsonValue>, Seq<char>>(a@),
            Ok(None) => def_array(deref_opt(f)) == Ok::<Seq<JsonValue>, Seq<char>>(Seq::empty()),
            Err(e) => def_array(deref_opt(f)) == Err::<Seq<JsonValue>, Seq<char>>(e@),
        },
{
    match f {
        None => Ok(None),
        Some(JsonValue::Array(a)) => Ok(Some(a)),
        Some(_) => Err(invalid("a sequence")),
    }
}

/// One parameter: `plus` and `star` parameters are variadic, the rest
/// positional; the kind defaults to `singular`.
pub fn convert_param(v: &JsonValue) -> (r: Result<Param, String>)
    ensures
        match r {
            Ok(p) => decode_param(*v) == Ok::<ParamView, Seq<char>>(p@),
            Err(e) => decode_param(*v) == Err::<ParamView, Seq<char>>(e@),
        },
{
    proof {
        reveal_strlit("name");
        reveal_strlit("default");
        reveal_strlit("kind");
    }
    check_record(v, 3, "struct RawParam")?;
    let name = read_req_string(record_field(v, "name", 0), "name")?;
    let default = read_opt_string(record_field(v, "default", 1))?;
    let kind = read_def_string(record_field(v, "kind", 2), default_kind().as_str())?;
    let is_variadic = same_text(kind.as_str(), "plus") || same_text(kind.as_str(), "star");
    Ok(Param { name, default, kind: if is_variadic { ParamKind::Variadic } else { ParamKind::Positional } })
}

/// The kind of a parameter whose dump gives none.
pub fn default_kind() -> (r: String)
    ensures
        r@ == "singular"@,
{
    text("singular")
}

fn convert_dep(v: &JsonValue) -> (r: Result<String, String>)
    ensures
        match r {
            Ok(d) => decode_dep(*v) == Ok::<Seq<char>, Seq<char>>(d@),
            Err(e) => decode_dep(*v) == Err::<Seq<char>, Seq<char>>(e@),
        },
{
    check_record(v, 1, "struct RawDep")?;
    read_req_string(record_field(v, "recipe", 0), "recipe")
}

} // verus!

verus! {

proof fn lemma_params_err_extends(items: Seq<JsonValue>, n: int)
    requires
        0 <= n <= items.len(),
        decode_params(items.take(n)) is Err,
    ensures
        decode_params(items) == decode_params(items.take(n)),
    decreases items.len() - n,
{
    if n < items.len() {
        assert(items.drop_last().take(n) =~= items.take(n));
        lemma_params_err_extends(items.drop_last(), n);
    } else {
        assert(items.take(n) =~= items);
    }
}

proof fn lemma_deps_err_extends(items: Seq<JsonValue>, n: int)
    requires
        0 <= n <= items.len(),
        decode_deps(items.take(n)) is Err,
    ensures
        decode_deps(items) == decode_deps(items.take(n)),
    decreases items.len() - n,
{
    if n < items.len() {
        assert(items.drop_last().take(n) =~= items.take(n));
        lemma_deps_err_extends(items.drop_last(), n);
    } else {
        assert(items.take(n) =~= items);
    }
}

fn convert_params(items: &Vec<JsonValue>) -> (r: Result<Vec<Param>, String>)
    ensures
        match r {
            Ok(ps) => decode_params(items@) == Ok::<Seq<ParamView>, Seq<char>>(ps@.map_values(|p: Param| p@)),
            Err(e) => decode_params(items@) == Err::<Seq<ParamView>, Seq<char>>(e@),
        },
{
    let mut out: Vec<Param> = Vec::new();
    let mut i: usize = 0;
    assert(items@.take(0) =~= Seq::<JsonValue>::empty());
    assert(out@.map_values(|p: Param| p@) =~= Seq::<ParamView>::empty());
    while i < items.len()
        invariant
            i <= items.len(),
            decode_params(items@.take(i as int)) == Ok::<Seq<ParamView>, Seq<char>>(out@.map_values(|p: Param| p@)),
        decreases items.len() - i,
    {
        assert(items@.take(i + 1).drop_last() == items@.take(i as int));
        assert(items@.take(i + 1).last() == items@[i as int]);
        match convert_param(&items[i]) {
            Ok(p) => {
                let ghost before = out@;
                out.push(p);
                assert(out@.map_values(|p: Param| p@) =~= before.map_values(|p: Param| p@).push(p@));
            },
            Err(e) => {
                proof { lemma_params_err_extends(items@, i + 1); }
                return Err(e);
            },
        }
        i = i + 1;
    }
    assert(items@.take(i as int) == items@);
    Ok(out)
}

fn convert_deps(items: &Vec<JsonValue>) -> (r: Result<Vec<String>, String>)
    ensures
        match r {
            Ok(ds) => decode_deps(items@) == Ok::<Seq<Seq<char>>, Seq<char>>(ds.deep_view()),
            Err(e) => decode_deps(items@) == Err::<Seq<Seq<char>>, Seq<char>>(e@),
        },
{
    let mut out: Vec<String> = Vec::new();
    let mut i: usize = 0;
    assert(items@.take(0) =~= Seq::<JsonValue>::empty());
    assert(out.deep_view() =~= Seq::<Seq<char>>::empty());
    while i < items.len()
        invariant
            i <= items.len(),
            decode_deps(items@.take(i as int)) == Ok::<Seq<Seq<char>>, Seq<char>>(out.deep_view()),
        decreases items.len() - i,
    {
        assert(items@.take(i + 1).drop_last() == items@.take(i as int));
        assert(items@.take(i + 1).last() == items@[i as int]);
        match convert_dep(&items[i]) {
            Ok(d) => {
                let ghost before = out.deep_view();
                out.push(d);
                assert(out.deep_view() =~= before.push(d@));
            },
            Err(e) => {
                proof { lemma_deps_err_extends(items@, i + 1); }
                return Err(e);
            },
        }
        i = i + 1;
    }
    assert(items@.take(i as int) == items@);
    Ok(out)
}

} // verus!

verus! {

/// The recipe `name` from its dump record; `None` when it is private.
fn convert_recipe(name: &String, v: &JsonValue) -> (r: Result<Option<Recipe>, String>)
    ensures
        match r {
            Ok(Some(rc)) => decode_recipe(name@, *v) == Ok::<Option<RecipeView>, Seq<char>>(Some(rc@)),
            Ok(None) => decode_recipe(name@, *v) == Ok::<Option<RecipeView>, Seq<char>>(None),
            Err(e) => decode_recipe(name@, *v) == Err::<Option<RecipeView>, Seq<char>>(e@),
        },
{
    proof {
        reveal_strlit("parameters");
        reveal_strlit("body");
        reveal_strlit("doc");
        reveal_strlit("attributes");
        reveal_strlit("private");
        reveal_strlit("dependencies");
    }
    let empty: Vec<JsonValue> = Vec::new();
    check_record(v, 6, "struct RawRecipe")?;
    let raw_params = match read_def_array(record_field(v, "parameters", 0))? {
        Some(a) => a,
        None => &empty,
    };
    let params = convert_params(raw_params)?;
    let body = match read_def_array(record_field(v, "body", 1))? {
        Some(a) => a,
        None => &empty,
    };
    let doc = read_opt_string(record_field(v, "doc", 2))?;
    let attrs = match read_def_array(record_field(v, "attributes", 3))? {
        Some(a) => a,
        None => &empty,
    };
    let private = read_def_bool(record_field(v, "private", 4))?;
    let raw_deps = match read_def_array(record_field(v, "dependencies", 5))? {
        Some(a) => a,
        None => &empty,
    };
    let deps = convert_deps(raw_deps)?;
    if private {
        return Ok(None);
    }
    let doc = match doc {
        Some(d) => if crate::text::chars_of(d.as_str()).len() > 0 { Some(d) } else { None },
        None => None,
    };
    let rc = Recipe {
        name: name.clone(),
        modules: Vec::new(),
        group: extract_group(attrs),
        params,
        doc,
        command_preview: render_body(body),
        runs: Vec::new(),
        dependencies: deps,
    };
    assert(rc.modules.deep_view() =~= Seq::<Seq<char>>::empty());
    Ok(Some(rc))
}

} // verus!

verus! {

// ------------------------------------------------------------ the dump

/// The recipe entries of the dump: its `recipes` map, entry by entry.
pub open spec fn recipe_entries(v: JsonValue) -> Result<Seq<(String, JsonValue)>, Seq<char>> {
    match record_fields(v, seq!["recipes"@], "struct RawDump"@) {
        Err(m) => Err(m),
        Ok(fs) => match fs[0] {
            None => Err(msg_missing("recipes"@)),
            Some(JsonValue::Object(es)) => Ok(es@),
            Some(_) => Err(msg_invalid("a map"@)),
        },
    }
}

/// Every entry decoded in turn; the first failure wins.
pub open spec fn decode_entries(es: Seq<(String, JsonValue)>) -> Result<Seq<(Seq<char>, Option<RecipeView>)>, Seq<char>>
    decreases es.len(),
{
    if es.len() == 0 {
        Ok(Seq::empty())
    } else {
        match decode_entries(es.drop_last()) {
            Err(m) => Err(m),
            Ok(ds) => match decode_recipe(es.last().0@, es.last().1) {
                Err(m) => Err(m),
                Ok(o) => Ok(ds.push((es.last().0@, o))),
            },
        }
    }
}

/// Recipes by name, the last entry for a name winning; `None` marks a
/// private recipe.
pub open spec fn entry_map(ds: Seq<(Seq<char>, Option<RecipeView>)>) -> Map<Seq<char>, Option<RecipeView>>
    decreases ds.len(),
{
    if ds.len() == 0 {
        Map::empty()
    } else {
        entry_map(ds.drop_last()).insert(ds.last().0, ds.last().1)
    }
}

/// The recipes a dump describes, by name, or the reason it cannot be read.
pub open spec fn dump_map(v: JsonValue) -> Result<Map<Seq<char>, Option<RecipeView>>, Seq<char>> {
    match recipe_entries(v) {
        Err(m) => Err(m),
        Ok(es) => match decode_entries(es) {
            Err(m) => Err(m),
            Ok(ds) => Ok(entry_map(ds)),
        },
    }
}

/// `rs` lists exactly the public recipes of `m`, strictly sorted by name.
pub open spec fn lists_recipes(rs: Seq<RecipeView>, m: Map<Seq<char>, Option<RecipeView>>) -> bool {
    &&& forall|i: int, j: int| 0 <= i < j < rs.len() ==> seq_lt(#[trigger] rs[i].name, #[trigger] rs[j].name)
    &&& forall|i: int| 0 <= i < rs.len() ==> m.contains_key(#[trigger] rs[i].name) && m[rs[i].name] == Some(rs[i])
    &&& forall|k: Seq<char>| #[trigger] m.contains_key(k) && m[k] is Some ==> exists|i: int| 0 <= i < rs.len() && rs[i].name == k
}

pub open spec fn rviews(rs: Seq<Recipe>) -> Seq<RecipeView> {
    rs.map_values(|r: Recipe| r@)
}

/// Puts recipe `o` under `name` (removing what was there; `None` removes only).
#[verifier::spinoff_prover]
#[verifier::rlimit(40)]
fn upsert(out: &mut Vec<Recipe>, name: &String, o: Option<Recipe>, m: Ghost<Map<Seq<char>, Option<RecipeView>>>)
    requires
        lists_recipes(rviews(old(out)@), m@),
        o matches Some(rc) ==> rc@.name == name@,
    ensures
        lists_recipes(rviews(final(out)@), m@.insert(name@, match o { Some(rc) => Some(rc@), None => None })),
{
    let ghost m1 = m@.insert(name@, None::<RecipeView>);
    // remove the current entry for `name`, if any
    let mut p: usize = 0;
    while p < out.len() && !same_text(out[p].name.as_str(), name.as_str())
        invariant
            p <= out.len(),
            out@ == old(out)@,
            forall|k: int| 0 <= k < p ==> out@[k]@.name != name@,
        decreases out.len() - p,
    {
        p = p + 1;
    }
    if p < out.len() {
        let ghost before = rviews(out@);
        assert(before[p as int].name == name@);
        assert(forall|k: int| 0 <= k < p ==> before[k].name != name@);
        out.remove(p);
        assert(rviews(out@) =~= before.remove(p as int));
        assert forall|k: Seq<char>| #[trigger] m1.contains_key(k) && m1[k] is Some implies
            exists|i: int| 0 <= i < rviews(out@).len() && rviews(out@)[i].name == k by {
            assert(m@.contains_key(k));
            let i0 = choose|i: int| 0 <= i < before.len() && before[i].name == k;
            assert(i0 != p);
            if i0 < p { assert(rviews(out@)[i0].name == k); } else { assert(rviews(out@)[i0 - 1].name == k); }
        }
        assert forall|i: int| 0 <= i < rviews(out@).len() implies m1.contains_key(#[trigger] rviews(out@)[i].name)
            && m1[rviews(out@)[i].name] == Some(rviews(out@)[i]) by {
            let j = if i < p { i } else { i + 1 };
            assert(rviews(out@)[i] == before[j]);
            if j != p as int {
                if before[j].name == name@ {
                    if j < p { lemma_seq_lt_irrefl(name@); assert(false); }
                    else { assert(seq_lt(before[p as int].name, before[j].name)); lemma_seq_lt_irrefl(name@); }
                }
            }
        }
        assert forall|a: int, b: int| 0 <= a < b < rviews(out@).len() implies
            seq_lt(#[trigger] rviews(out@)[a].name, #[trigger] rviews(out@)[b].name) by {
            let a2 = if a < p { a } else { a + 1 };
            let b2 = if b < p { b } else { b + 1 };
            assert(seq_lt(before[a2].name, before[b2].name));
        }
    } else {
        assert forall|k: Seq<char>| #[trigger] m1.contains_key(k) && m1[k] is Some implies
            exists|i: int| 0 <= i < rviews(out@).len() && rviews(out@)[i].name == k by {
            assert(m.contains_key(k) && m@[k] is Some);
        }
        assert forall|i: int| 0 <= i < rviews(out@).len() implies m1.contains_key(#[trigger] rviews(out@)[i].name)
            && m1[rviews(out@)[i].name] == Some(rviews(out@)[i]) by {
            assert(rviews(out@)[i].name != name@);
        }
    }
    assert(lists_recipes(rviews(out@), m1));
    match o {
        None => {
            assert(m1 =~= m@.insert(name@, None::<RecipeView>));
        },
        Some(rc) => {
            // insert before the first name that sorts after `name`
            let mut q: usize = 0;
            while q < out.len() && !crate::text::text_less(name.as_str(), out[q].name.as_str())
                invariant
                    q <= out.len(),
                    m1 == m@.insert(name@, None::<RecipeView>),
                    lists_recipes(rviews(out@), m1),
                    forall|k: int| 0 <= k < q ==> seq_lt(out@[k]@.name, name@),
                decreases out.len() - q,
            {
                proof {
                    assert(rviews(out@)[q as int] == out@[q as int]@);
                    assert(out@[q as int]@.name != name@) by {
                        if out@[q as int]@.name == name@ {
                            assert(m1.contains_key(rviews(out@)[q as int].name));
                            assert(m1[name@] is None);
                        }
                    }
                    lemma_seq_lt_total(out@[q as int]@.name, name@);
                }
                q = q + 1;
            }
            let ghost before = rviews(out@);
            let ghost rv = rc@;
            out.insert(q, rc);
            let ghost m2 = m@.insert(name@, Some(rv));
            assert(rviews(out@) =~= before.insert(q as int, rv));
            assert forall|a: int, b: int| 0 <= a < b < rviews(out@).len() implies
                seq_lt(#[trigger] rviews(out@)[a].name, #[trigger] rviews(out@)[b].name) by {
                if b == q {
                    assert(seq_lt(before[a].name, name@));
                } else if a == q {
                    assert(seq_lt(name@, before[q as int].name));
                    if b - 1 > q {
                        assert(seq_lt(before[q as int].name, before[b - 1].name));
                        lemma_seq_lt_trans(name@, before[q as int].name, before[b - 1].name);
                    }
                } else {
                    let a2 = if a < q { a } else { a - 1 };
                    let b2 = if b < q { b } else { b - 1 };
                    assert(seq_lt(before[a2].name, before[b2].name));
                }
            }
            assert forall|i: int| 0 <= i < rviews(out@).len() implies m2.contains_key(#[trigger] rviews(out@)[i].name)
                && m2[rviews(out@)[i].name] == Some(rviews(out@)[i]) by {
                if i != q {
                    let j = if i < q { i } else { i - 1 };
                    assert(rviews(out@)[i] == before[j]);
                    assert(m1[before[j].name] is Some);
                }
            }
            assert forall|k: Seq<char>| #[trigger] m2.contains_key(k) && m2[k] is Some implies
                exists|i: int| 0 <= i < rviews(out@).len() && rviews(out@)[i].name == k by {
                if k == name@ {
                    assert(rviews(out@)[q as int].name == k);
                } else {
                    assert(m1.contains_key(k) && m1[k] is Some);
                    let i0 = choose|i: int| 0 <= i < before.len() && before[i].name == k;
                    if i0 < q { assert(rviews(out@)[i0].name == k); } else { assert(rviews(out@)[i0 + 1].name == k); }
                }
            }
        },
    }
}

} // verus!

verus! {

proof fn lemma_entries_err_extends(es: Seq<(String, JsonValue)>, n: int)
    requires
        0 <= n <= es.len(),
        decode_entries(es.take(n)) is Err,
    ensures
        decode_entries(es) == decode_entries(es.take(n)),
    decreases es.len() - n,
{
    if n < es.len() {
        assert(es.drop_last().take(n) =~= es.take(n));
        lemma_entries_err_extends(es.drop_last(), n);
    } else {
        assert(es.take(n) =~= es);
    }
}

/// The recipe entries of a dump, with the reason when there are none.
fn recipes_of(v: &JsonValue) -> (r: Result<&Vec<(String, JsonValue)>, String>)
    ensures
        match r {
            Ok(es) => recipe_entries(*v) == Ok::<Seq<(String, JsonValue)>, Seq<char>>(es@),
            Err(e) => recipe_entries(*v) == Err::<Seq<(String, JsonValue)>, Seq<char>>(e@),
        },
{
    proof { reveal_strlit("recipes"); }
    check_record(v, 1, "struct RawDump")?;
    match record_field(v, "recipes", 0) {
        None => Err(missing("recipes")),
        Some(JsonValue::Object(es)) => Ok(es),
        Some(_) => Err(invalid("a map")),
    }
}

/// The public recipes of a parsed dump, sorted by name; private recipes
/// are left out and, when a name occurs twice, the later entry counts.
pub fn decode_dump(v: &JsonValue) -> (r: Result<Vec<Recipe>, String>)
    ensures
        match r {
            Ok(rs) => dump_map(*v) matches Ok(m) && lists_recipes(rviews(rs@), m),
            Err(e) => dump_map(*v) == Err::<Map<Seq<char>, Option<RecipeView>>, Seq<char>>(e@),
        },
{
    let es = match recipes_of(v) {
        Ok(es) => es,
        Err(e) => {
            return Err(e);
        },
    };
    let mut out: Vec<Recipe> = Vec::new();
    let ghost mut ds: Seq<(Seq<char>, Option<RecipeView>)> = Seq::empty();
    let mut i: usize = 0;
    assert(es@.take(0) =~= Seq::<(String, JsonValue)>::empty());
    assert(entry_map(ds) =~= Map::<Seq<char>, Option<RecipeView>>::empty());
    while i < es.len()
        invariant
            i <= es.len(),
            recipe_entries(*v) == Ok::<Seq<(String, JsonValue)>, Seq<char>>(es@),
            decode_entries(es@.take(i as int)) == Ok::<Seq<(Seq<char>, Option<RecipeView>)>, Seq<char>>(ds),
            lists_recipes(rviews(out@), entry_map(ds)),
        decreases es.len() - i,
    {
        assert(es@.take(i + 1).drop_last() == es@.take(i as int));
        assert(es@.take(i + 1).last() == es@[i as int]);
        let name = &es[i].0;
        match convert_recipe(name, &es[i].1) {
            Ok(o) => {
                let ghost ov: Option<RecipeView> = match &o { Some(rc) => Some(rc@), None => None };
                upsert(&mut out, name, o, Ghost(entry_map(ds)));
                proof {
                    let ds2 = ds.push((name@, ov));
                    assert(ds2.drop_last() == ds);
                    ds = ds2;
                }
            },
            Err(e) => {
                proof { lemma_entries_err_extends(es@, i + 1); }
                return Err(e);
            },
        }
        i = i + 1;
    }
    assert(es@.take(i as int) == es@);
    Ok(out)
}

/// Parses the JSON that `just --dump --dump-format=json` prints for the
/// justfile at `path` into its public recipes, sorted by name.
pub fn parse_dump_with_path(json: &str, path: &String) -> (r: Result<Vec<Recipe>, Error>)
    ensures
        match serde_json_reading(json@) {
            Err(m) => r matches Err(Error::JustDumpParse { path: p, message }) && p@ == path@ && message@ == m,
            Ok(v) => match dump_map(v) {
                Err(m) => r matches Err(Error::JustDumpParse { path: p, message }) && p@ == path@ && message@ == m,
                Ok(mp) => r matches Ok(rs) && lists_recipes(rviews(rs@), mp),
            },
        },
{
    match parse_json(json) {
        Err(m) => Err(Error::JustDumpParse { path: path.clone(), message: m }),
        Ok(v) => match decode_dump(&v) {
            Err(m) => Err(Error::JustDumpParse { path: path.clone(), message: m }),
            Ok(rs) => Ok(rs),
        },
    }
}

/// `parse_dump_with_path` for a dump of unknown origin.
pub fn parse_dump(json: &str) -> (r: Result<Vec<Recipe>, Error>)
    ensures
        match serde_json_reading(json@) {
            Err(m) => r matches Err(Error::JustDumpParse { path, message }) && path@ == "<unknown>"@ && message@ == m,
            Ok(v) => match dump_map(v) {
                Err(m) => r matches Err(Error::JustDumpParse { path, message }) && path@ == "<unknown>"@ && message@ == m,
                Ok(mp) => r matches Ok(rs) && lists_recipes(rviews(rs@), mp),
            },
        },
{
    let path = text("<unknown>");
    parse_dump_with_path(json, &path)
}

} // verus!
