//! Command templates: `{key}` placeholders replaced by parameter values.
//!
//! Rendering is a pure function of the template and the parameter list. For
//! each parameter in list order, every occurrence of `{key}` in the text so far
//! is replaced, left to right, by the value's text. A placeholder whose key is
//! not in the list stays as it is.

use vstd::prelude::*;
use crate::json::{
    ascending_entries, json_array_text, json_array_text_of, json_member, json_object_text, json_object_text_of,
    json_quoted, strings_view,
};
use crate::text::{chars_of, comma_joined, push_decimal, signed_decimal, string_from_chars};

verus! {

/// A parameter value: a scalar, a list of strings or a string-to-string mapping.
pub enum ParamValue {
    Text(String),
    Int(i64),
    Flag(bool),
    Null,
    List(Vec<String>),
    Record(std::collections::HashMap<String, String>),
}

/// What a parameter value holds, as mathematical values.
pub enum ParamView {
    Text(Seq<char>),
    Int(int),
    Flag(bool),
    Null,
    List(Seq<Seq<char>>),
    Record(Map<Seq<char>, Seq<char>>),
}

impl View for ParamValue {
    type V = ParamView;

    open spec fn view(&self) -> ParamView {
        match self {
            ParamValue::Text(s) => ParamView::Text(s@),
            ParamValue::Int(n) => ParamView::Int(*n as int),
            ParamValue::Flag(b) => ParamView::Flag(*b),
            ParamValue::Null => ParamView::Null,
            ParamValue::List(items) => ParamView::List(strings_view(items@)),
            ParamValue::Record(m) => ParamView::Record(m.deep_view()),
        }
    }
}

/// A parameter list seen as (key, value) pairs of mathematical values.
pub open spec fn params_view(ps: Seq<(String, ParamValue)>) -> Seq<(Seq<char>, ParamView)> {
    ps.map_values(|p: (String, ParamValue)| (p.0@, p.1@))
}

/// The text of `true`.
pub open spec fn true_text() -> Seq<char> {
    seq!['t', 'r', 'u', 'e']
}

/// The text of `false`.
pub open spec fn false_text() -> Seq<char> {
    seq!['f', 'a', 'l', 's', 'e']
}

/// The text of `null`.
pub open spec fn null_text() -> Seq<char> {
    seq!['n', 'u', 'l', 'l']
}

/// `s` without its leading characters equal to `a` or `b`.
pub open spec fn drop_leading(s: Seq<char>, a: char, b: char) -> Seq<char>
    decreases s.len(),
{
    if s.len() > 0 && (s[0] == a || s[0] == b) {
        drop_leading(s.drop_first(), a, b)
    } else {
        s
    }
}

/// `s` without its trailing characters equal to `a` or `b`.
pub open spec fn drop_trailing(s: Seq<char>, a: char, b: char) -> Seq<char>
    decreases s.len(),
{
    if s.len() > 0 && (s.last() == a || s.last() == b) {
        drop_trailing(s.drop_last(), a, b)
    } else {
        s
    }
}

/// `s` without its first and last character: the inside of a text that is
/// wrapped in delimiters (empty when `s` is shorter than two).
pub open spec fn inner(s: Seq<char>) -> Seq<char> {
    if s.len() >= 2 {
        s.subrange(1, s.len() - 1)
    } else {
        Seq::empty()
    }
}

/// The text that stands for a value in a rendered template: a string as it
/// is; a number in decimal; `true`, `false` or `null`; a list or a mapping as
/// its compact JSON text without its outermost delimiters (`[]` or `{}`).
pub open spec fn value_text(v: ParamView) -> Seq<char> {
    match v {
        ParamView::Text(s) => s,
        ParamView::Int(n) => signed_decimal(n),
        ParamView::Flag(b) => if b {
            true_text()
        } else {
            false_text()
        },
        ParamView::Null => null_text(),
        ParamView::List(items) => inner(json_array_text_of(items)),
        ParamView::Record(m) => inner(json_object_text_of(m)),
    }
}

/// The placeholder `{key}`.
pub open spec fn placeholder(key: Seq<char>) -> Seq<char> {
    seq!['{'] + key + seq!['}']
}

/// `s` with each occurrence of the non-empty `pat`, found left to right
/// without overlap, replaced by `rep`.
pub open spec fn replace_all(s: Seq<char>, pat: Seq<char>, rep: Seq<char>) -> Seq<char>
    decreases s.len(),
{
    if pat.len() == 0 || s.len() < pat.len() {
        s
    } else if s.subrange(0, pat.len() as int) == pat {
        rep + replace_all(s.subrange(pat.len() as int, s.len() as int), pat, rep)
    } else {
        seq![s[0]] + replace_all(s.drop_first(), pat, rep)
    }
}

/// The template `t` rendered with the parameters `ps`, applied in list order.
pub open spec fn render_text(t: Seq<char>, ps: Seq<(Seq<char>, ParamView)>) -> Seq<char>
    decreases ps.len(),
{
    if ps.len() == 0 {
        t
    } else {
        replace_all(render_text(t, ps.drop_last()), placeholder(ps.last().0), value_text(ps.last().1))
    }
}

fn push_all(out: &mut Vec<char>, src: &Vec<char>)
    ensures
        final(out)@ == old(out)@ + src@,
{
    let mut i: usize = 0;
    while i < src.len()
        invariant
            i <= src.len(),
            out@ == old(out)@ + src@.take(i as int),
        decreases src.len() - i,
    {
        out.push(src[i]);
        i = i + 1;
        assert(out@ =~= old(out)@ + src@.take(i as int));
    }
    assert(src@.take(i as int) =~= src@);
}

fn occurs_at(s: &Vec<char>, pat: &Vec<char>, i: usize) -> (r: bool)
    requires
        i <= s.len(),
    ensures
        r == (pat.len() <= s.len() - i && s@.subrange(i as int, i + pat.len()) == pat@),
{
    if pat.len() > s.len() - i {
        return false;
    }
    let mut j: usize = 0;
    while j < pat.len()
        invariant
            pat.len() <= s.len() - i,
            j <= pat.len(),
            s@.subrange(i as int, i + j) == pat@.take(j as int),
        decreases pat.len() - j,
    {
        if s[i + j] != pat[j] {
            assert(s@.subrange(i as int, i + pat.len())[j as int] != pat@[j as int]);
            return false;
        }
        j = j + 1;
        assert(s@.subrange(i as int, i + j) =~= pat@.take(j as int));
    }
    assert(pat@.take(j as int) =~= pat@);
    true
}

/// Every non-overlapping occurrence of `pat` in `s`, left to right, replaced by `rep`.
pub fn replace_chars(s: &Vec<char>, pat: &Vec<char>, rep: &Vec<char>) -> (r: Vec<char>)
    requires
        pat.len() > 0,
    ensures
        r@ == replace_all(s@, pat@, rep@),
{
    let mut out: Vec<char> = Vec::new();
    let mut i: usize = 0;
    let ghost n = s@.len() as int;
    assert(s@.subrange(0, n) =~= s@);
    while i < s.len()
        invariant
            i <= s.len(),
            n == s@.len(),
            pat.len() > 0,
            out@ + replace_all(s@.subrange(i as int, n), pat@, rep@) == replace_all(s@, pat@, rep@),
        decreases s.len() - i,
    {
        let ghost rest = s@.subrange(i as int, n);
        if occurs_at(s, pat, i) {
            assert(rest.subrange(0, pat.len() as int) =~= s@.subrange(i as int, i + pat.len()));
            assert(rest.subrange(pat.len() as int, rest.len() as int) =~= s@.subrange(
                i + pat.len(),
                n,
            ));
            push_all(&mut out, rep);
            i = i + pat.len();
            assert(out@ + replace_all(s@.subrange(i as int, n), pat@, rep@) =~= replace_all(
                s@,
                pat@,
                rep@,
            ));
        } else {
            proof {
                assert(rest.drop_first() =~= s@.subrange(i + 1, n));
                if rest.len() < pat@.len() {
                    assert(replace_all(rest.drop_first(), pat@, rep@) == rest.drop_first());
                    assert(rest =~= seq![rest[0]] + rest.drop_first());
                } else {
                    assert(rest.subrange(0, pat@.len() as int) =~= s@.subrange(
                        i as int,
                        i + pat@.len(),
                    ));
                }
            }
            out.push(s[i]);
            i = i + 1;
            assert(out@ + replace_all(s@.subrange(i as int, n), pat@, rep@) =~= replace_all(
                s@,
                pat@,
                rep@,
            ));
        }
    }
    assert(s@.subrange(i as int, n) =~= Seq::<char>::empty());
    assert(out@ + Seq::<char>::empty() =~= out@);
    out
}

/// `s` without its first and last character.
pub fn inner_chars(s: &Vec<char>) -> (r: Vec<char>)
    ensures
        r@ == inner(s@),
{
    let mut out: Vec<char> = Vec::new();
    if s.len() < 2 {
        assert(out@ =~= inner(s@));
        return out;
    }
    let end = s.len() - 1;
    let mut k: usize = 1;
    while k < end
        invariant
            1 <= k <= end,
            end == s.len() - 1,
            out@ == s@.subrange(1, k as int),
        decreases end - k,
    {
        out.push(s[k]);
        k = k + 1;
        assert(out@ =~= s@.subrange(1, k as int));
    }
    out
}

/// The placeholder `{key}` as characters.
pub fn placeholder_chars(key: &String) -> (r: Vec<char>)
    ensures
        r@ == placeholder(key@),
{
    let mut r: Vec<char> = Vec::new();
    r.push('{');
    let k = chars_of(key.as_str());
    push_all(&mut r, &k);
    r.push('}');
    assert(r@ =~= placeholder(key@));
    r
}

/// The text that stands for `v` in a rendered template, as characters.
pub fn value_chars(v: &ParamValue) -> (r: Vec<char>)
    ensures
        r@ == value_text(v@),
{
    match v {
        ParamValue::Text(s) => chars_of(s.as_str()),
        ParamValue::Int(n) => {
            let mut r: Vec<char> = Vec::new();
            if *n < 0 {
                r.push('-');
                let m: u64 = (0i128 - (*n as i128)) as u64;
                push_decimal(&mut r, m);
                assert(r@ =~= signed_decimal(*n as int));
            } else {
                push_decimal(&mut r, *n as u64);
                assert(r@ =~= signed_decimal(*n as int));
            }
            r
        },
        ParamValue::Flag(b) => {
            if *b {
                let r = chars_of("true");
                proof {
                    reveal_strlit("true");
                }
                assert(r@ =~= true_text());
                r
            } else {
                let r = chars_of("false");
                proof {
                    reveal_strlit("false");
                }
                assert(r@ =~= false_text());
                r
            }
        },
        ParamValue::Null => {
            let r = chars_of("null");
            proof {
                reveal_strlit("null");
            }
            assert(r@ =~= null_text());
            r
        },
        ParamValue::List(items) => {
            let text = json_array_text(items);
            inner_chars(&chars_of(text.as_str()))
        },
        ParamValue::Record(m) => {
            let text = json_object_text(m);
            inner_chars(&chars_of(text.as_str()))
        },
    }
}

/// Renders `template` with `params`: for each parameter in list order, every
/// `{key}` is replaced by the value's text. Unknown placeholders stay.
pub fn render(template: &str, params: &Vec<(String, ParamValue)>) -> (r: String)
    ensures
        r@ == render_text(template@, params_view(params@)),
{
    let mut cur = chars_of(template);
    let mut k: usize = 0;
    let ghost ps = params_view(params@);
    assert(ps.take(0) =~= Seq::<(Seq<char>, ParamView)>::empty());
    while k < params.len()
        invariant
            k <= params.len(),
            ps == params_view(params@),
            cur@ == render_text(template@, ps.take(k as int)),
        decreases params.len() - k,
    {
        let pat = placeholder_chars(&params[k].0);
        let rep = value_chars(&params[k].1);
        cur = replace_chars(&cur, &pat, &rep);
        proof {
            assert(ps.take(k + 1).drop_last() =~= ps.take(k as int));
            assert(ps.take(k + 1).last() == ps[k as int]);
        }
        k = k + 1;
    }
    assert(ps.take(k as int) =~= ps);
    string_from_chars(&cur)
}

/// Whether `pat` occurs in `s`.
pub open spec fn occurs_in(s: Seq<char>, pat: Seq<char>) -> bool {
    exists|i: int| 0 <= i && i + pat.len() <= s.len() && #[trigger] s.subrange(i, i + pat.len()) == pat
}

proof fn lemma_replace_absent(s: Seq<char>, pat: Seq<char>, rep: Seq<char>)
    requires
        pat.len() > 0,
        !occurs_in(s, pat),
    ensures
        replace_all(s, pat, rep) == s,
    decreases s.len(),
{
    if s.len() >= pat.len() {
        assert(s.subrange(0, pat.len() as int) != pat) by {
            if s.subrange(0, pat.len() as int) == pat {
                assert(s.subrange(0int, 0int + pat.len()) == pat);
            }
        }
        let t = s.drop_first();
        assert(!occurs_in(t, pat)) by {
            if occurs_in(t, pat) {
                let i = choose|i: int| 0 <= i && i + pat.len() <= t.len() && #[trigger] t.subrange(i, i + pat.len()) == pat;
                assert(s.subrange(i + 1, i + 1 + pat.len()) =~= t.subrange(i, i + pat.len()));
            }
        }
        lemma_replace_absent(t, pat, rep);
        assert(seq![s[0]] + t =~= s);
    }
}

/// Rendering leaves a template unchanged when none of the parameters'
/// placeholders occurs in it; in particular, with no parameters at all. A
/// placeholder without a parameter is never an error: it stays as written.
pub proof fn lemma_render_without_placeholders(t: Seq<char>, ps: Seq<(Seq<char>, ParamView)>)
    requires
        forall|i: int| 0 <= i < ps.len() ==> !occurs_in(t, #[trigger] placeholder(ps[i].0)),
    ensures
        render_text(t, ps) == t,
    decreases ps.len(),
{
    if ps.len() > 0 {
        let rest = ps.drop_last();
        assert forall|i: int| 0 <= i < rest.len() implies !occurs_in(t, #[trigger] placeholder(rest[i].0)) by {
            assert(rest[i] == ps[i]);
        }
        lemma_render_without_placeholders(t, rest);
        assert(placeholder(ps[ps.len() - 1].0) == placeholder(ps.last().0));
        lemma_replace_absent(t, placeholder(ps.last().0), value_text(ps.last().1));
    }
}

/// A list stands in a template as its items, each in JSON quotes with JSON
/// escapes, joined by commas.
pub proof fn lemma_list_text(items: Seq<Seq<char>>)
    ensures
        value_text(ParamView::List(items)) == comma_joined(
            items.map_values(|s: Seq<char>| json_quoted(s)),
        ),
{
    let body = comma_joined(items.map_values(|s: Seq<char>| json_quoted(s)));
    assert(inner(seq!['['] + body + seq![']']) =~= body);
}

/// A mapping stands in a template as its entries in ascending order of key,
/// each written `"key":"value"` with JSON escapes, joined by commas.
pub proof fn lemma_record_text(m: Map<Seq<char>, Seq<char>>)
    ensures
        value_text(ParamView::Record(m)) == comma_joined(
            ascending_entries(m).map_values(|p: (Seq<char>, Seq<char>)| json_member(p)),
        ),
{
    let body = comma_joined(ascending_entries(m).map_values(|p: (Seq<char>, Seq<char>)| json_member(p)));
    assert(inner(seq!['{'] + body + seq!['}']) =~= body);
}

} // verus!
