//! Template interpolation over a JSON context.
//!
//! `{{name}}` and `{{path.to.field}}` are replaced by the value found at that
//! dotted path of the context (strings verbatim, `null` as `null`, anything
//! else as compact JSON). Unknown placeholders are left unchanged, and text
//! outside placeholders is copied unchanged.
use vstd::prelude::*;

use crate::json::{JsonModel, JsonValue, json_rendering, json_string, ref_model, opt_model};
use crate::text::{chars_of, extend_chars, slice_chars, string_of, trim, trim_range};

verus! {

broadcast use vstd::std_specs::vec::group_vec_axioms;

/// Position of the first `}}` at or after `j`.
pub open spec fn closing_at(t: Seq<char>, j: int) -> Option<int>
    decreases t.len() - j,
{
    if j < 0 || j + 1 >= t.len() {
        None
    } else if t[j] == '}' && t[j + 1] == '}' {
        Some(j)
    } else {
        closing_at(t, j + 1)
    }
}

pub proof fn lemma_find_close_bounds(t: Seq<char>, j: int)
    ensures
        closing_at(t, j) matches Some(k) ==> j <= k && k + 1 < t.len() && t[k] == '}' && t[k + 1] == '}',
    decreases t.len() - j,
{
    if !(j < 0 || j + 1 >= t.len()) && !(t[j] == '}' && t[j + 1] == '}') {
        lemma_find_close_bounds(t, j + 1);
    }
}

/// Index of the first `sep` in `s`.
pub open spec fn first_index(s: Seq<char>, sep: char) -> Option<nat>
    decreases s.len(),
{
    if s.len() == 0 {
        None
    } else if s[0] == sep {
        Some(0)
    } else {
        match first_index(s.drop_first(), sep) {
            Some(k) => Some(k + 1),
            None => None,
        }
    }
}

pub proof fn lemma_first_index(s: Seq<char>, sep: char)
    ensures
        first_index(s, sep) matches Some(k) ==> k < s.len() && s[k as int] == sep && forall|m: int|
            0 <= m < k ==> s[m] != sep,
        first_index(s, sep) is None ==> forall|m: int| 0 <= m < s.len() ==> s[m] != sep,
    decreases s.len(),
{
    if s.len() > 0 && s[0] != sep {
        lemma_first_index(s.drop_first(), sep);
        assert forall|m: int| 0 < m < s.len() implies s[m] == s.drop_first()[m - 1] by {}
    }
}

/// The pieces of `s` between occurrences of `sep` (what `str::split` with a
/// character pattern yields; there is always at least one piece).
pub open spec fn split_on(s: Seq<char>, sep: char) -> Seq<Seq<char>>
    decreases s.len(),
{
    match first_index(s, sep) {
        None => seq![s],
        Some(k) => {
            proof {
                lemma_first_index(s, sep);
            }
            seq![s.take(k as int)] + split_on(s.skip(k as int + 1), sep)
        },
    }
}

/// Splits `v` on `sep`.
pub fn split_chars(v: &Vec<char>, sep: char) -> (r: Vec<Vec<char>>)
    ensures
        r.len() == split_on(v@, sep).len(),
        forall|i: int| 0 <= i < r.len() ==> #[trigger] r@[i]@ == split_on(v@, sep)[i],
{
    let n = v.len();
    let mut out: Vec<Vec<char>> = Vec::new();
    let ghost done: Seq<Seq<char>> = seq![];
    let mut start: usize = 0;
    let mut i: usize = 0;
    proof {
        assert(v@.skip(0) =~= v@);
        assert(done + split_on(v@.skip(0), sep) =~= split_on(v@, sep));
    }
    while i < n
        invariant
            n == v.len(),
            start <= i <= n,
            out.len() == done.len(),
            forall|k: int| 0 <= k < out.len() ==> #[trigger] out@[k]@ == done[k],
            forall|m: int| start <= m < i ==> v@[m] != sep,
            done + split_on(v@.skip(start as int), sep) == split_on(v@, sep),
        decreases n - i,
    {
        if v[i] == sep {
            let piece = slice_chars(v, start, i);
            proof {
                let s = v@.skip(start as int);
                lemma_first_index(s, sep);
                let k = (i - start) as nat;
                assert(s[k as int] == v@[i as int]);
                assert forall|m: int| 0 <= m < k implies s[m] != sep by {
                    assert(s[m] == v@[start + m]);
                }
                if let Some(f) = first_index(s, sep) {
                    if f < k {
                        assert(s[f as int] == v@[start + f]);
                    }
                    assert(f == k);
                }
                assert(first_index(s, sep) == Some(k));
                assert(s.take(k as int) =~= v@.subrange(start as int, i as int));
                assert(s.skip(k as int + 1) =~= v@.skip(i + 1));
                assert(done.push(piece@) + split_on(v@.skip(i + 1), sep) =~= done + split_on(s, sep));
                done = done.push(piece@);
            }
            out.push(piece);
            start = i + 1;
        }
        i += 1;
    }
    let last = slice_chars(v, start, n);
    proof {
        let s = v@.skip(start as int);
        lemma_first_index(s, sep);
        if let Some(f) = first_index(s, sep) {
            assert(s[f as int] == v@[start + f]);
        }
        assert(first_index(s, sep) is None);
        assert(s =~= v@.subrange(start as int, n as int));
        assert(done.push(last@) =~= done + split_on(s, sep));
        done = done.push(last@);
    }
    out.push(last);
    out
}

/// The value at a sequence of object keys.
pub open spec fn lookup_segments(v: JsonModel, segs: Seq<Seq<char>>) -> Option<JsonModel>
    decreases segs.len(),
{
    if segs.len() == 0 {
        Some(v)
    } else {
        match v.get(segs[0]) {
            Some(n) => lookup_segments(n, segs.drop_first()),
            None => None,
        }
    }
}

/// The value at a dotted path (each `.`-separated segment is an object key).
pub open spec fn lookup_path(v: JsonModel, path: Seq<char>) -> Option<JsonModel> {
    lookup_segments(v, split_on(path, '.'))
}

/// Follows a dotted path of object keys from `value`.
pub fn walk_json<'a>(value: &'a JsonValue, path: &Vec<char>) -> (r: Option<&'a JsonValue>)
    ensures
        ref_model(r) == lookup_path(value.model(), path@),
{
    let segs = split_chars(path, '.');
    let ghost ss = split_on(path@, '.');
    let mut current: &JsonValue = value;
    let mut i: usize = 0;
    proof {
        assert(ss.skip(0) =~= ss);
    }
    while i < segs.len()
        invariant
            i <= segs.len(),
            segs.len() == ss.len(),
            forall|k: int| 0 <= k < segs.len() ==> #[trigger] segs@[k]@ == ss[k],
            lookup_path(value.model(), path@) == lookup_segments(current.model(), ss.skip(i as int)),
        decreases segs.len() - i,
    {
        proof {
            assert(ss.skip(i as int)[0] == ss[i as int]);
            assert(ss.skip(i as int).drop_first() =~= ss.skip(i + 1));
        }
        match current.get(&segs[i]) {
            Some(next) => {
                current = next;
            },
            None => {
                return None;
            },
        }
        i += 1;
    }
    proof {
        assert(ss.skip(i as int).len() == 0);
    }
    Some(current)
}

/// The value at a dotted path, copied.
pub fn lookup_path_value(value: &JsonValue, path: &Vec<char>) -> (r: Option<JsonValue>)
    ensures
        opt_model(r) == lookup_path(value.model(), path@),
{
    match walk_json(value, path) {
        Some(v) => Some(v.deep_clone()),
        None => None,
    }
}

/// How a looked-up value is written into a template.
pub open spec fn stringify(v: JsonModel) -> Seq<char> {
    match v {
        JsonModel::Str(s) => s,
        JsonModel::Null => seq!['n', 'u', 'l', 'l'],
        other => json_rendering(other),
    }
}

pub fn stringify_value(value: &JsonValue) -> (r: Vec<char>)
    ensures
        r@ == stringify(value.model()),
{
    match value {
        JsonValue::String(s) => chars_of(s.as_str()),
        JsonValue::Null => {
            let mut out: Vec<char> = Vec::new();
            out.push('n');
            out.push('u');
            out.push('l');
            out.push('l');
            proof {
                assert(out@ =~= seq!['n', 'u', 'l', 'l']);
            }
            out
        },
        _ => chars_of(json_string(value).as_str()),
    }
}

/// The rendering of template characters from position `i` on.
pub open spec fn render_from(t: Seq<char>, ctx: JsonModel, i: int) -> Seq<char>
    decreases t.len() - i,
{
    if i < 0 || i >= t.len() {
        seq![]
    } else if i + 1 < t.len() && t[i] == '{' && t[i + 1] == '{' && closing_at(t, i + 2) is Some {
        let end = closing_at(t, i + 2)->0;
        proof {
            lemma_find_close_bounds(t, i + 2);
        }
        let key = trim(t.subrange(i + 2, end));
        let piece = match lookup_path(ctx, key) {
            Some(v) => stringify(v),
            None => t.subrange(i, end + 2),
        };
        piece + render_from(t, ctx, end + 2)
    } else {
        seq![t[i]] + render_from(t, ctx, i + 1)
    }
}

/// The rendering of a whole template.
pub open spec fn render(t: Seq<char>, ctx: JsonModel) -> Seq<char> {
    render_from(t, ctx, 0)
}

/// First `}}` at or after `start`.
pub fn find_close(t: &Vec<char>, start: usize) -> (r: Option<usize>)
    ensures
        match closing_at(t@, start as int) {
            Some(k) => r == Some(k as usize),
            None => r is None,
        },
{
    let mut i: usize = start;
    while i < t.len() && i + 1 < t.len()
        invariant
            start <= i,
            closing_at(t@, start as int) == closing_at(t@, i as int),
        decreases t.len() - i,
    {
        if t[i] == '}' && t[i + 1] == '}' {
            return Some(i);
        }
        i += 1;
    }
    None
}

/// Interpolates `{{path}}` placeholders of `template` from `context`.
pub fn render_template(template: &str, context: &JsonValue) -> (r: String)
    ensures
        r@ == render(template@, context.model()),
{
    let t = chars_of(template);
    let out = render_chars(&t, context);
    string_of(&out)
}

/// Interpolation over a character vector.
pub fn render_chars(t: &Vec<char>, context: &JsonValue) -> (r: Vec<char>)
    ensures
        r@ == render(t@, context.model()),
{
    let ghost ctx = context.model();
    let mut out: Vec<char> = Vec::new();
    let mut i: usize = 0;
    while i < t.len()
        invariant
            i <= t.len(),
            ctx == context.model(),
            render(t@, ctx) == out@ + render_from(t@, ctx, i as int),
        decreases t.len() - i,
    {
        let ghost before = out@;
        let ghost ii = i as int;
        let mut handled = false;
        if i + 1 < t.len() && t[i] == '{' && t[i + 1] == '{' {
            match find_close(t, i + 2) {
                Some(end) => {
                    proof {
                        lemma_find_close_bounds(t@, i + 2);
                    }
                    let key = trim_range(t, i + 2, end);
                    match lookup_path_value(context, &key) {
                        Some(value) => {
                            let s = stringify_value(&value);
                            extend_chars(&mut out, &s);
                        },
                        None => {
                            let raw = slice_chars(t, i, end + 2);
                            extend_chars(&mut out, &raw);
                        },
                    }
                    proof {
                        let piece = match lookup_path(ctx, trim(t@.subrange(ii + 2, end as int))) {
                            Some(v) => stringify(v),
                            None => t@.subrange(ii, end + 2),
                        };
                        assert(out@ == before + piece);
                        assert(render_from(t@, ctx, ii) == piece + render_from(t@, ctx, end + 2));
                        assert(before + (piece + render_from(t@, ctx, end + 2)) =~= out@ + render_from(t@, ctx, end + 2));
                    }
                    i = end + 2;
                    handled = true;
                },
                None => {},
            }
        }
        if !handled {
            proof {
                assert(render_from(t@, ctx, ii) == seq![t@[ii]] + render_from(t@, ctx, ii + 1));
            }
            out.push(t[i]);
            i += 1;
            proof {
                assert(before + (seq![t@[ii]] + render_from(t@, ctx, ii + 1)) =~= out@ + render_from(t@, ctx, ii + 1));
            }
        }
    }
    proof {
        assert(out@ + render_from(t@, ctx, i as int) =~= out@);
    }
    out
}

} // verus!
