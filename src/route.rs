//! Character-level pieces of route wrapping: normalisation of known
//! malformed inputs, splitting at delimiters, and trimming of lines.

use vstd::prelude::*;
use crate::chars::{FULL_WIDTH_SPACE, chars_of, string_of};

verus! {

/// The pattern of the delimiters between place names.
pub const ROUTE_DELIMITERS: &'static str = "[\u{3000}\u{ff5c}]| \\||\\|";

/// `s` with every occurrence of `pat`, from left to right and without
/// overlap, replaced by `rep`.
pub open spec fn replace_all(s: Seq<char>, pat: Seq<char>, rep: Seq<char>) -> Seq<char>
    decreases s.len(),
{
    if pat.len() == 0 || s.len() < pat.len() {
        s
    } else if s.take(pat.len() as int) == pat {
        rep + replace_all(s.skip(pat.len() as int), pat, rep)
    } else {
        seq![s[0]] + replace_all(s.skip(1), pat, rep)
    }
}

/// `s` with each plain space turned into a full-width space.
pub open spec fn full_width_spaces(s: Seq<char>) -> Seq<char> {
    s.map_values(|c: char| if c == ' ' { FULL_WIDTH_SPACE } else { c })
}

pub open spec fn kyushu_pattern() -> Seq<char> {
    seq!['_', '九', '州', '外', '空', '車', '適', '用']
}

pub open spec fn kyushu_replacement() -> Seq<char> {
    seq![FULL_WIDTH_SPACE, '九', '州', '外', '空', '車', '適', '用']
}

pub open spec fn apply_pattern() -> Seq<char> {
    seq!['適', '用', '*', ' ', ' ', ' ', '追', '加']
}

pub open spec fn apply_replacement() -> Seq<char> {
    seq!['適', '用', '*', FULL_WIDTH_SPACE, '追', '加']
}

/// A route after its two known repairs, with plain spaces made full-width.
pub open spec fn normalize_route(s: Seq<char>) -> Seq<char> {
    full_width_spaces(
        replace_all(
            replace_all(s, kyushu_pattern(), kyushu_replacement()),
            apply_pattern(),
            apply_replacement(),
        ),
    )
}

/// A delimiter between place names once no plain space is left.
pub open spec fn is_route_delim(c: char) -> bool {
    c == FULL_WIDTH_SPACE || c == '\u{ff5c}' || c == '|'
}

/// The pieces of `s` between delimiter characters; empty pieces are kept.
pub open spec fn split_route(s: Seq<char>) -> Seq<Seq<char>>
    decreases s.len(),
{
    if s.len() == 0 {
        seq![Seq::<char>::empty()]
    } else {
        let rest = split_route(s.drop_last());
        if is_route_delim(s.last()) {
            rest.push(Seq::<char>::empty())
        } else {
            rest.update(rest.len() - 1, rest.last().push(s.last()))
        }
    }
}

/// `s` without its leading full-width spaces.
pub open spec fn trim_start_fw(s: Seq<char>) -> Seq<char>
    decreases s.len(),
{
    if s.len() > 0 && s[0] == FULL_WIDTH_SPACE {
        trim_start_fw(s.skip(1))
    } else {
        s
    }
}

/// `s` without its trailing full-width spaces.
pub open spec fn trim_end_fw(s: Seq<char>) -> Seq<char>
    decreases s.len(),
{
    if s.len() > 0 && s.last() == FULL_WIDTH_SPACE {
        trim_end_fw(s.drop_last())
    } else {
        s
    }
}

/// A packed route line as printed: plain spaces made full-width, then
/// full-width spaces trimmed at both ends.
pub open spec fn tidy(s: Seq<char>) -> Seq<char> {
    trim_end_fw(trim_start_fw(full_width_spaces(s)))
}

fn window_is(s: &Vec<char>, i: usize, pat: &Vec<char>) -> (r: bool)
    requires
        i <= s.len(),
    ensures
        r == (i + pat.len() <= s.len() && s@.subrange(i as int, i + pat.len()) == pat@),
{
    if pat.len() > s.len() - i {
        return false;
    }
    let mut j: usize = 0;
    while j < pat.len()
        invariant
            i + pat.len() <= s.len(),
            j <= pat.len(),
            forall|k: int| 0 <= k < j ==> s@[i + k] == pat@[k],
        decreases pat.len() - j,
    {
        if s[i + j] != pat[j] {
            assert(s@.subrange(i as int, i + pat.len())[j as int] != pat@[j as int]);
            return false;
        }
        j = j + 1;
    }
    assert(s@.subrange(i as int, i + pat.len()) =~= pat@);
    true
}

fn replace_chars(s: &Vec<char>, pat: &Vec<char>, rep: &Vec<char>) -> (r: Vec<char>)
    requires
        pat.len() > 0,
    ensures
        r@ == replace_all(s@, pat@, rep@),
{
    let mut out: Vec<char> = Vec::new();
    let mut i: usize = 0;
    assert(s@.skip(0) =~= s@);
    assert(out@ + replace_all(s@, pat@, rep@) =~= replace_all(s@, pat@, rep@));
    while i < s.len()
        invariant
            pat.len() > 0,
            i <= s.len(),
            out@ + replace_all(s@.skip(i as int), pat@, rep@) == replace_all(s@, pat@, rep@),
        decreases s.len() - i,
    {
        let ghost rest = s@.skip(i as int);
        if window_is(s, i, pat) {
            assert(rest.take(pat.len() as int) =~= s@.subrange(i as int, i + pat.len()));
            assert(rest.skip(pat.len() as int) =~= s@.skip(i + pat.len()));
            let ghost before = out@;
            let mut k: usize = 0;
            while k < rep.len()
                invariant
                    k <= rep.len(),
                    out@ == before + rep@.take(k as int),
                decreases rep.len() - k,
            {
                out.push(rep[k]);
                assert(out@ =~= before + rep@.take(k + 1));
                k = k + 1;
            }
            assert(rep@.take(rep.len() as int) =~= rep@);
            assert(out@ + replace_all(s@.skip(i + pat.len()), pat@, rep@) =~= before + replace_all(
                rest,
                pat@,
                rep@,
            ));
            i = i + pat.len();
        } else {
            assert(rest.skip(1) =~= s@.skip(i + 1));
            proof {
                if rest.len() >= pat@.len() {
                    assert(rest.take(pat@.len() as int) =~= s@.subrange(i as int, i + pat@.len()));
                } else {
                    assert(seq![rest[0]] + rest.skip(1) =~= rest);
                }
            }
            let ghost before = out@;
            out.push(s[i]);
            assert(out@ + replace_all(s@.skip(i + 1), pat@, rep@) =~= before + replace_all(
                rest,
                pat@,
                rep@,
            ));
            i = i + 1;
        }
    }
    assert(s@.skip(i as int) =~= Seq::<char>::empty());
    assert(out@ + Seq::<char>::empty() =~= out@);
    out
}

fn full_width_chars(s: &Vec<char>) -> (r: Vec<char>)
    ensures
        r@ == full_width_spaces(s@),
{
    let mut out: Vec<char> = Vec::new();
    let mut i: usize = 0;
    while i < s.len()
        invariant
            i <= s.len(),
            out@ == full_width_spaces(s@.take(i as int)),
        decreases s.len() - i,
    {
        let c = s[i];
        out.push(if c == ' ' { FULL_WIDTH_SPACE } else { c });
        assert(out@ =~= full_width_spaces(s@.take(i + 1)));
        i = i + 1;
    }
    assert(s@.take(s.len() as int) =~= s@);
    out
}

/// Applies the two known repairs to a route and makes plain spaces
/// full-width.
pub fn normalize_route_text(s: &str) -> (r: String)
    ensures
        r@ == normalize_route(s@),
{
    let v = chars_of(s);
    let kyushu_pat: Vec<char> = vec!['_', '九', '州', '外', '空', '車', '適', '用'];
    let kyushu_rep: Vec<char> = vec![FULL_WIDTH_SPACE, '九', '州', '外', '空', '車', '適', '用'];
    let apply_pat: Vec<char> = vec!['適', '用', '*', ' ', ' ', ' ', '追', '加'];
    let apply_rep: Vec<char> = vec!['適', '用', '*', FULL_WIDTH_SPACE, '追', '加'];
    assert(kyushu_pat@ =~= kyushu_pattern());
    assert(kyushu_rep@ =~= kyushu_replacement());
    assert(apply_pat@ =~= apply_pattern());
    assert(apply_rep@ =~= apply_replacement());
    let a = replace_chars(&v, &kyushu_pat, &kyushu_rep);
    let b = replace_chars(&a, &apply_pat, &apply_rep);
    let c = full_width_chars(&b);
    string_of(&c)
}

/// Relies on `regex::Regex::new` and `regex::Regex::split`: the route
/// delimiter pattern compiles, and on text without plain spaces it matches
/// exactly the single delimiter characters, so the split yields the pieces
/// between them, empty ones included.
#[verifier::external_body]
fn regex_split(pattern: &str, text: &str) -> (r: Vec<String>)
    requires
        pattern@ == ROUTE_DELIMITERS@,
        forall|i: int| 0 <= i < text@.len() ==> text@[i] != ' ',
    ensures
        r@.map_values(|p: String| p@) == split_route(text@),
{
    regex::Regex::new(pattern).unwrap().split(text).map(String::from).collect()
}

/// Splits a normalised route at its delimiters.
pub fn split_route_text(text: &str) -> (r: Vec<String>)
    requires
        forall|i: int| 0 <= i < text@.len() ==> text@[i] != ' ',
    ensures
        r@.map_values(|p: String| p@) == split_route(text@),
{
    regex_split(ROUTE_DELIMITERS, text)
}

/// Turns plain spaces into full-width ones and trims full-width spaces at
/// both ends.
pub fn tidy_line(s: &str) -> (r: String)
    ensures
        r@ == tidy(s@),
{
    let v0 = chars_of(s);
    let v = full_width_chars(&v0);
    let n = v.len();
    let mut i: usize = 0;
    assert(v@.skip(0) =~= v@);
    while i < n && v[i] == FULL_WIDTH_SPACE
        invariant
            n == v@.len(),
            i <= n,
            trim_start_fw(v@) == trim_start_fw(v@.skip(i as int)),
        decreases n - i,
    {
        assert(v@.skip(i as int).skip(1) =~= v@.skip(i + 1));
        i = i + 1;
    }
    let ghost t = v@.skip(i as int);
    assert(trim_start_fw(t) == t);
    let mut j: usize = n;
    while j > i && v[j - 1] == FULL_WIDTH_SPACE
        invariant
            n == v@.len(),
            i <= j <= n,
            t == v@.skip(i as int),
            trim_end_fw(t) == trim_end_fw(v@.subrange(i as int, j as int)),
        decreases j - i,
    {
        assert(v@.subrange(i as int, j as int).drop_last() =~= v@.subrange(i as int, j - 1));
        j = j - 1;
    }
    assert(t =~= v@.subrange(i as int, n as int));
    let ghost u = v@.subrange(i as int, j as int);
    assert(trim_end_fw(u) == u);
    let mut out: Vec<char> = Vec::new();
    let mut k: usize = i;
    while k < j
        invariant
            i <= k <= j <= n,
            n == v@.len(),
            out@ == v@.subrange(i as int, k as int),
        decreases j - k,
    {
        out.push(v[k]);
        assert(out@ =~= v@.subrange(i as int, k + 1));
        k = k + 1;
    }
    string_of(&out)
}

} // verus!
