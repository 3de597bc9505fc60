//! Wrapping of the two free-text fields and alignment of each record's
//! columns into parallel, equal-length row arrays.

use vstd::prelude::*;
use crate::chars::{FULL_WIDTH_SPACE, is_blank, is_blank_str, push_char, views};
use crate::models::{Ryohi, format_price, format_tenths, price_text, tenths_text};
use crate::route::{
    apply_pattern, apply_replacement, full_width_spaces, kyushu_pattern, kyushu_replacement,
    normalize_route, normalize_route_text, replace_all, split_route, split_route_text, tidy,
    tidy_line,
};

verus! {

/// The separator placed between joined detail fragments.
pub const DETAIL_SEPARATOR: char = '\u{3001}';

/// Lines produced by one of the wrappers, with their number.
pub struct TextWrapResult {
    pub lines: Vec<String>,
    pub row_count: usize,
}

impl TextWrapResult {
    pub open spec fn wf(&self) -> bool {
        self.row_count == self.lines@.len()
    }

    /// A result without lines.
    pub fn empty() -> (r: TextWrapResult)
        ensures
            r.wf(),
            r.lines@.len() == 0,
    {
        TextWrapResult { lines: Vec::new(), row_count: 0 }
    }

    /// A result made of one line.
    pub fn single(line: String) -> (r: TextWrapResult)
        ensures
            r.wf(),
            views(r.lines@) == seq![line@],
    {
        let mut lines: Vec<String> = Vec::new();
        lines.push(line);
        assert(views(lines@) =~= seq![line@]);
        TextWrapResult { lines, row_count: 1 }
    }
}

/// Appends `cur` to `done` unless it is empty.
pub open spec fn flush(done: Seq<Seq<char>>, cur: Seq<char>) -> Seq<Seq<char>> {
    if cur.len() == 0 {
        done
    } else {
        done.push(cur)
    }
}

/// The lines that are not blank, in order.
pub open spec fn drop_blank(ls: Seq<Seq<char>>) -> Seq<Seq<char>>
    decreases ls.len(),
{
    if ls.len() == 0 {
        ls
    } else if is_blank(ls.last()) {
        drop_blank(ls.drop_last())
    } else {
        drop_blank(ls.drop_last()).push(ls.last())
    }
}

/// One greedy step of detail wrapping: the fragment `d` joins the current
/// line when it fits, else it starts a new line, cut to `max` characters.
pub open spec fn detail_step(
    st: (Seq<Seq<char>>, Seq<char>),
    d: Seq<char>,
    max: nat,
) -> (Seq<Seq<char>>, Seq<char>) {
    let done = st.0;
    let cur = st.1;
    let sep: Seq<char> = if cur.len() == 0 { seq![] } else { seq![DETAIL_SEPARATOR] };
    if cur.len() + sep.len() + d.len() <= max {
        (done, cur + sep + d)
    } else {
        (flush(done, cur), if d.len() > max { d.take(max as int) } else { d })
    }
}

/// Finished lines and pending line after the given fragments.
pub open spec fn detail_fold(ds: Seq<Seq<char>>, max: nat) -> (Seq<Seq<char>>, Seq<char>)
    decreases ds.len(),
{
    if ds.len() == 0 {
        (seq![], seq![])
    } else {
        detail_step(detail_fold(ds.drop_last(), max), ds.last(), max)
    }
}

/// The lines that detail wrapping yields for the fragments `ds`.
pub open spec fn detail_lines(ds: Seq<Seq<char>>, max: nat) -> Seq<Seq<char>> {
    let st = detail_fold(ds, max);
    drop_blank(flush(st.0, st.1))
}

/// Fragments joined with the detail separator.
pub open spec fn joined(ds: Seq<Seq<char>>) -> Seq<char>
    decreases ds.len(),
{
    if ds.len() == 0 {
        seq![]
    } else if ds.len() == 1 {
        ds[0]
    } else {
        joined(ds.drop_last()) + seq![DETAIL_SEPARATOR] + ds.last()
    }
}

/// Keeps the lines of `ls` that are not blank.
fn keep_non_blank(ls: Vec<String>) -> (r: Vec<String>)
    ensures
        views(r@) == drop_blank(views(ls@)),
{
    let mut out: Vec<String> = Vec::new();
    let mut i: usize = 0;
    while i < ls.len()
        invariant
            i <= ls.len(),
            views(out@) == drop_blank(views(ls@).take(i as int)),
        decreases ls.len() - i,
    {
        let ghost pre = views(ls@).take(i as int);
        assert(views(ls@).take(i + 1).drop_last() =~= pre);
        assert(views(ls@).take(i + 1).last() == ls@[i as int]@);
        if !is_blank_str(ls[i].as_str()) {
            out.push(ls[i].clone());
            assert(views(out@) =~= drop_blank(views(ls@).take(i + 1)));
        }
        i = i + 1;
    }
    assert(views(ls@).take(ls@.len() as int) =~= views(ls@));
    out
}

/// Joins the fragments with the detail separator, greedily, into lines of
/// at most `max_len` characters; a fragment longer than that on its own is
/// cut to its first `max_len` characters. Blank lines are left out.
pub fn wrap_detail(details: &[String], max_len: usize) -> (r: TextWrapResult)
    ensures
        r.wf(),
        views(r.lines@) == detail_lines(views(details@), max_len as nat),
        forall|i: int| 0 <= i < r.lines@.len() ==> (#[trigger] r.lines@[i])@.len() <= max_len,
{
    let ghost ds = views(details@);
    if details.len() == 0 {
        let r = TextWrapResult::empty();
        assert(views(r.lines@) =~= detail_lines(ds, max_len as nat));
        return r;
    }
    let mut result: Vec<String> = Vec::new();
    let mut current = String::new();
    let mut i: usize = 0;
    proof {
        reveal_strlit("\u{3001}");
    }
    while i < details.len()
        invariant
            i <= details.len(),
            ds == views(details@),
            (views(result@), current@) == detail_fold(ds.take(i as int), max_len as nat),
            current@.len() <= max_len,
            forall|k: int| 0 <= k < result@.len() ==> (#[trigger] result@[k])@.len() <= max_len,
            "\u{3001}"@ == seq![DETAIL_SEPARATOR],
        decreases details.len() - i,
    {
        assert(ds.take(i + 1).drop_last() =~= ds.take(i as int));
        assert(ds.take(i + 1).last() == details@[i as int]@);
        let d = details[i].as_str();
        let cur_len = current.as_str().unicode_len();
        let d_len = d.unicode_len();
        let fits = if cur_len == 0 {
            d_len <= max_len
        } else {
            cur_len < max_len && d_len <= max_len - cur_len - 1
        };
        if fits {
            if cur_len != 0 {
                current.append("\u{3001}");
            }
            current.append(d);
        } else {
            if cur_len != 0 {
                result.push(current);
            }
            current = if d_len > max_len {
                String::from_str(d.substring_char(0, max_len))
            } else {
                details[i].clone()
            };
        }
        assert((views(result@), current@) =~= detail_fold(ds.take(i + 1), max_len as nat));
        i = i + 1;
    }
    assert(ds.take(details@.len() as int) =~= ds);
    let ghost st = detail_fold(ds, max_len as nat);
    if current.as_str().unicode_len() != 0 {
        result.push(current);
    }
    assert(views(result@) =~= flush(st.0, st.1));
    let lines = keep_non_blank(result);
    proof {
        lemma_detail_lines_bounded(ds, max_len as nat);
        assert(views(lines@) == detail_lines(ds, max_len as nat));
        assert forall|k: int| 0 <= k < lines@.len() implies (#[trigger] lines@[k])@.len() <= max_len by {
            assert(views(lines@)[k] == lines@[k]@);
            assert(detail_lines(ds, max_len as nat)[k].len() <= max_len);
        }
    }
    let row_count = lines.len();
    TextWrapResult { lines, row_count }
}

proof fn lemma_drop_blank_from(ls: Seq<Seq<char>>, max: nat)
    requires
        forall|i: int| 0 <= i < ls.len() ==> (#[trigger] ls[i]).len() <= max,
    ensures
        forall|i: int| 0 <= i < drop_blank(ls).len() ==> (#[trigger] drop_blank(ls)[i]).len() <= max,
    decreases ls.len(),
{
    if ls.len() > 0 {
        let p = ls.drop_last();
        assert forall|i: int| 0 <= i < p.len() implies (#[trigger] p[i]).len() <= max by {
            assert(p[i] == ls[i]);
        }
        lemma_drop_blank_from(p, max);
        if !is_blank(ls.last()) {
            let q = drop_blank(p);
            assert forall|i: int| 0 <= i < q.push(ls.last()).len() implies (#[trigger] q.push(
                ls.last(),
            )[i]).len() <= max by {
                if i < q.len() {
                    assert(q.push(ls.last())[i] == q[i]);
                }
            }
        }
    }
}

proof fn lemma_detail_fold_bounded(ds: Seq<Seq<char>>, max: nat)
    ensures
        detail_fold(ds, max).1.len() <= max,
        forall|i: int|
            0 <= i < detail_fold(ds, max).0.len() ==> (#[trigger] detail_fold(ds, max).0[i]).len()
                <= max,
    decreases ds.len(),
{
    if ds.len() > 0 {
        lemma_detail_fold_bounded(ds.drop_last(), max);
    }
}

/// Every line that detail wrapping yields has at most `max` characters;
/// a fragment cut on its own is exactly `max` long.
pub proof fn lemma_detail_lines_bounded(ds: Seq<Seq<char>>, max: nat)
    ensures
        forall|i: int|
            0 <= i < detail_lines(ds, max).len() ==> (#[trigger] detail_lines(ds, max)[i]).len()
                <= max,
{
    let st = detail_fold(ds, max);
    lemma_detail_fold_bounded(ds, max);
    lemma_drop_blank_from(flush(st.0, st.1), max);
}

/// The line printed for a route segment longer than a whole line.
pub open spec fn exceed_line() -> Seq<char> {
    seq!['e', 'x', 'c', 'e', 'e', 'd', '*']
}

/// One step of route packing. The state holds the finished lines, the
/// pending line and the number of characters committed to it, trailing
/// separators included.
pub open spec fn route_step(
    st: (Seq<Seq<char>>, Seq<char>, nat),
    p: Seq<char>,
    max: nat,
) -> (Seq<Seq<char>>, Seq<char>, nat) {
    let done = st.0;
    let cur = st.1;
    let count = st.2;
    let l = p.len();
    if count != 0 && count + l == max {
        (done.push(cur + p), seq![], 0)
    } else if l == max && cur.len() == 0 {
        (done.push(p), cur, 0)
    } else if l > max {
        (done.push(exceed_line()), cur, 0)
    } else if count + l + 1 > max {
        (flush(done, cur), p.push(FULL_WIDTH_SPACE), l + 1)
    } else {
        (done, cur + p.push(FULL_WIDTH_SPACE), count + l + 1)
    }
}

pub open spec fn route_fold(ps: Seq<Seq<char>>, max: nat) -> (Seq<Seq<char>>, Seq<char>, nat)
    decreases ps.len(),
{
    if ps.len() == 0 {
        (seq![], seq![], 0)
    } else {
        route_step(route_fold(ps.drop_last(), max), ps.last(), max)
    }
}

/// The packed lines of the segments `ps`, before tidying.
pub open spec fn route_packed(ps: Seq<Seq<char>>, max: nat) -> Seq<Seq<char>> {
    let st = route_fold(ps, max);
    if st.2 != 0 {
        st.0.push(st.1)
    } else {
        st.0
    }
}

/// The lines that route wrapping yields for the route `s`.
pub open spec fn route_lines(s: Seq<char>, max: nat) -> Seq<Seq<char>> {
    if s.len() == 0 {
        seq![Seq::<char>::empty()]
    } else {
        route_packed(split_route(normalize_route(s)), max).map_values(|l: Seq<char>| tidy(l))
    }
}

/// Packs the segments of a route into lines of `max_len` characters,
/// counting a full-width space after each segment that is not the last of
/// its line. A segment longer than a line yields the line `exceed*`.
pub fn wrap_kukan(kukan: &str, max_len: usize) -> (r: TextWrapResult)
    requires
        max_len < usize::MAX,
    ensures
        r.wf(),
        views(r.lines@) == route_lines(kukan@, max_len as nat),
{
    if kukan.unicode_len() == 0 {
        return TextWrapResult::single(String::new());
    }
    let normalized = normalize_route_text(kukan);
    proof {
        assert forall|i: int| 0 <= i < normalized@.len() implies normalized@[i] != ' ' by {}
    }
    let parts = split_route_text(normalized.as_str());
    let ghost ps = views(parts@);
    assert(ps == split_route(normalize_route(kukan@)));
    let mut result: Vec<String> = Vec::new();
    let mut current = String::new();
    let mut count: usize = 0;
    let mut i: usize = 0;
    proof {
        reveal_strlit("exceed*");
        assert("exceed*"@ =~= exceed_line());
    }
    while i < parts.len()
        invariant
            i <= parts.len(),
            max_len < usize::MAX,
            ps == views(parts@),
            (views(result@), current@, count as nat) == route_fold(ps.take(i as int), max_len as nat),
            count <= max_len + 1,
            "exceed*"@ == exceed_line(),
        decreases parts.len() - i,
    {
        assert(ps.take(i + 1).drop_last() =~= ps.take(i as int));
        assert(ps.take(i + 1).last() == parts@[i as int]@);
        let p = parts[i].as_str();
        let l = p.unicode_len();
        let cur_len = current.as_str().unicode_len();
        if count != 0 && count <= max_len && l == max_len - count {
            let mut line = current;
            line.append(p);
            result.push(line);
            current = String::new();
            count = 0;
        } else if l == max_len && cur_len == 0 {
            result.push(parts[i].clone());
            count = 0;
        } else if l > max_len {
            result.push(String::from_str("exceed*"));
            count = 0;
        } else if count >= max_len - l {
            if cur_len != 0 {
                result.push(current);
            }
            let mut line = String::from_str(p);
            push_char(&mut line, FULL_WIDTH_SPACE);
            current = line;
            count = l + 1;
        } else {
            current.append(p);
            push_char(&mut current, FULL_WIDTH_SPACE);
            count = count + l + 1;
        }
        assert((views(result@), current@, count as nat) =~= route_fold(ps.take(i + 1), max_len as nat));
        i = i + 1;
    }
    assert(ps.take(parts@.len() as int) =~= ps);
    if count != 0 {
        result.push(current);
    }
    let ghost packed = views(result@);
    assert(packed == route_packed(ps, max_len as nat));
    let mut lines: Vec<String> = Vec::new();
    let mut k: usize = 0;
    while k < result.len()
        invariant
            k <= result.len(),
            packed == views(result@),
            lines@.len() == k,
            forall|j: int| 0 <= j < k ==> (#[trigger] lines@[j])@ == tidy(packed[j]),
        decreases result.len() - k,
    {
        assert(packed[k as int] == result@[k as int]@);
        lines.push(tidy_line(result[k].as_str()));
        k = k + 1;
    }
    assert(views(lines@) =~= packed.map_values(|l: Seq<char>| tidy(l)));
    let row_count = lines.len();
    TextWrapResult { lines, row_count }
}

/// The text of an optional string field.
pub open spec fn opt_str(o: Option<&str>) -> Option<Seq<char>> {
    match o {
        Some(s) => Some(s@),
        None => None,
    }
}

/// The text of an optional owned string field.
pub open spec fn opt_string(o: Option<String>) -> Option<Seq<char>> {
    match o {
        Some(s) => Some(s@),
        None => None,
    }
}

/// A date of the shape `YYYY-MM-DD` (at least ten characters, with `-` at
/// positions 4 and 7).
pub open spec fn has_date_shape(s: Seq<char>) -> bool {
    s.len() >= 10 && s[4] == '-' && s[7] == '-'
}

/// A date as printed in its row: `MM/DD` when it has the date shape,
/// otherwise the text as given.
pub open spec fn date_cell(d: Option<Seq<char>>) -> Seq<char> {
    match d {
        Some(s) => if has_date_shape(s) {
            s.subrange(5, 7) + seq!['/'] + s.subrange(8, 10)
        } else {
            s
        },
        None => seq![],
    }
}

pub open spec fn text_cell(d: Option<Seq<char>>) -> Seq<char> {
    match d {
        Some(s) => s,
        None => seq![],
    }
}

pub open spec fn price_cell(p: Option<i32>) -> Seq<char> {
    match p {
        Some(v) => price_text(v as int),
        None => seq![],
    }
}

pub open spec fn vol_cell(v: Option<i64>) -> Seq<char> {
    match v {
        Some(t) => tenths_text(t as int),
        None => seq![],
    }
}

/// `n` rows, all empty but the first, which holds `first`.
pub open spec fn column(first: Seq<char>, n: nat) -> Seq<Seq<char>> {
    Seq::new(n, |i: int| if i == 0 { first } else { Seq::<char>::empty() })
}

/// `s` followed by empty rows up to `n` rows; never shortened.
pub open spec fn pad_to(s: Seq<Seq<char>>, n: nat) -> Seq<Seq<char>> {
    if s.len() < n {
        s + Seq::new((n - s.len()) as nat, |i: int| Seq::<char>::empty())
    } else {
        s
    }
}

fn column_of(first: String, n: usize) -> (r: Vec<String>)
    requires
        n >= 1,
    ensures
        views(r@) == column(first@, n as nat),
{
    let ghost f = first@;
    let mut out: Vec<String> = Vec::new();
    out.push(first);
    let mut i: usize = 1;
    while i < n
        invariant
            1 <= i <= n,
            out@.len() == i,
            out@[0]@ == f,
            forall|j: int| 1 <= j < i ==> (#[trigger] out@[j])@ == Seq::<char>::empty(),
        decreases n - i,
    {
        out.push(String::new());
        i = i + 1;
    }
    assert(views(out@) =~= column(f, n as nat));
    out
}

fn date_text(date: &str) -> (r: String)
    ensures
        r@ == date_cell(Some(date@)),
{
    if date.unicode_len() >= 10 && date.get_char(4) == '-' && date.get_char(7) == '-' {
        let mut out = String::from_str(date.substring_char(5, 7));
        push_char(&mut out, '/');
        out.append(date.substring_char(8, 10));
        out
    } else {
        String::from_str(date)
    }
}

/// Puts the scalar fields into the first of `max_rows` rows; every other
/// row is empty. A `YYYY-MM-DD` date is shown as `MM/DD`, the amount with
/// thousands separators, the quantity with one decimal digit.
pub fn align_rows(
    date: Option<&str>,
    dest: Option<&str>,
    price: Option<i32>,
    vol: Option<i64>,
    max_rows: usize,
) -> (r: (Vec<String>, Vec<String>, Vec<String>, Vec<String>))
    requires
        max_rows >= 1,
    ensures
        views(r.0@) == column(date_cell(opt_str(date)), max_rows as nat),
        views(r.1@) == column(text_cell(opt_str(dest)), max_rows as nat),
        views(r.2@) == column(price_cell(price), max_rows as nat),
        views(r.3@) == column(vol_cell(vol), max_rows as nat),
        r.0@.len() == max_rows && r.1@.len() == max_rows && r.2@.len() == max_rows && r.3@.len()
            == max_rows,
        forall|i: int|
            1 <= i < max_rows ==> (#[trigger] r.0@[i])@.len() == 0 && r.1@[i]@.len() == 0
                && r.2@[i]@.len() == 0 && r.3@[i]@.len() == 0,
{
    let d = match date {
        Some(s) => date_text(s),
        None => String::new(),
    };
    let g = match dest {
        Some(s) => String::from_str(s),
        None => String::new(),
    };
    let p = match price {
        Some(v) => format_price(v),
        None => String::new(),
    };
    let q = match vol {
        Some(t) => format_tenths(t),
        None => String::new(),
    };
    let r = (
        column_of(d, max_rows),
        column_of(g, max_rows),
        column_of(p, max_rows),
        column_of(q, max_rows),
    );
    proof {
        assert(views(r.0@).len() == r.0@.len());
        assert(views(r.1@).len() == r.1@.len());
        assert(views(r.2@).len() == r.2@.len());
        assert(views(r.3@).len() == r.3@.len());
        assert forall|i: int| 1 <= i < max_rows implies (#[trigger] r.0@[i])@.len() == 0
            && r.1@[i]@.len() == 0 && r.2@[i]@.len() == 0 && r.3@[i]@.len() == 0 by {
            assert(views(r.0@)[i] == r.0@[i]@);
            assert(views(r.1@)[i] == r.1@[i]@);
            assert(views(r.2@)[i] == r.2@[i]@);
            assert(views(r.3@)[i] == r.3@[i]@);
        }
    }
    r
}

proof fn lemma_drop_blank_len(ls: Seq<Seq<char>>)
    ensures
        drop_blank(ls).len() <= ls.len(),
    decreases ls.len(),
{
    if ls.len() > 0 {
        lemma_drop_blank_len(ls.drop_last());
    }
}

/// Drops blank lines, then pads with empty lines up to `max_rows`.
fn extend_to_max_rows(lines: &Vec<String>, max_rows: usize) -> (r: Vec<String>)
    ensures
        views(r@) == pad_to(drop_blank(views(lines@)), max_rows as nat),
{
    let mut kept: Vec<String> = Vec::new();
    let mut i: usize = 0;
    while i < lines.len()
        invariant
            i <= lines.len(),
            views(kept@) == drop_blank(views(lines@).take(i as int)),
        decreases lines.len() - i,
    {
        assert(views(lines@).take(i + 1).drop_last() =~= views(lines@).take(i as int));
        assert(views(lines@).take(i + 1).last() == lines@[i as int]@);
        if !is_blank_str(lines[i].as_str()) {
            kept.push(lines[i].clone());
            assert(views(kept@) =~= drop_blank(views(lines@).take(i + 1)));
        }
        i = i + 1;
    }
    assert(views(lines@).take(lines@.len() as int) =~= views(lines@));
    let ghost f = views(kept@);
    if kept.len() < max_rows {
        while kept.len() < max_rows
            invariant
                f.len() <= kept@.len() <= max_rows,
                forall|j: int| 0 <= j < f.len() ==> (#[trigger] kept@[j])@ == f[j],
                forall|j: int| f.len() <= j < kept@.len() ==> (#[trigger] kept@[j])@ == Seq::<char>::empty(),
            decreases max_rows - kept.len(),
        {
            kept.push(String::new());
        }
        assert(views(kept@) =~= pad_to(f, max_rows as nat));
    }
    kept
}

/// The rows of one record, one array per printed column, all of the same
/// length.
pub struct RyohiPrintData {
    pub date_lines: Vec<String>,
    pub dest_lines: Vec<String>,
    pub detail_lines: Vec<String>,
    pub kukan_lines: Vec<String>,
    pub price_lines: Vec<String>,
    pub vol_lines: Vec<String>,
    pub max_rows: usize,
}

/// The entry of a column at `row`, empty past its end.
pub open spec fn cell(col: Seq<Seq<char>>, row: int) -> Seq<char> {
    if 0 <= row < col.len() {
        col[row]
    } else {
        Seq::<char>::empty()
    }
}

/// Rows of the detail field: wrapped, or one empty row for no fragments.
pub open spec fn detail_rows(r: Ryohi, max: nat) -> Seq<Seq<char>> {
    if r.detail@.len() == 0 {
        seq![Seq::<char>::empty()]
    } else {
        detail_lines(views(r.detail@), max)
    }
}

/// Rows of the route field: wrapped, or one empty row when absent.
pub open spec fn kukan_rows(r: Ryohi, max: nat) -> Seq<Seq<char>> {
    match r.kukan {
        Some(k) => route_lines(k@, max),
        None => seq![Seq::<char>::empty()],
    }
}

/// The height of a record: the larger wrapped field, and at least one row.
pub open spec fn record_rows(r: Ryohi, dmax: nat, kmax: nat) -> nat {
    let a = detail_rows(r, dmax).len();
    let b = kukan_rows(r, kmax).len();
    let m = if a >= b { a } else { b };
    if m >= 1 { m } else { 1 }
}

/// The six columns of a formatted record, in printed order: date,
/// destination, detail, route, amount, quantity.
pub open spec fn record_columns(r: Ryohi, dmax: nat, kmax: nat) -> Seq<Seq<Seq<char>>> {
    let n = record_rows(r, dmax, kmax);
    seq![
        column(date_cell(opt_string(r.date)), n),
        column(text_cell(opt_string(r.dest)), n),
        pad_to(drop_blank(detail_rows(r, dmax)), n),
        pad_to(drop_blank(kukan_rows(r, kmax)), n),
        column(price_cell(r.price), n),
        column(vol_cell(r.vol), n),
    ]
}

impl RyohiPrintData {
    /// All six columns have `max_rows` rows.
    pub open spec fn wf(&self) -> bool {
        &&& self.date_lines@.len() == self.max_rows
        &&& self.dest_lines@.len() == self.max_rows
        &&& self.detail_lines@.len() == self.max_rows
        &&& self.kukan_lines@.len() == self.max_rows
        &&& self.price_lines@.len() == self.max_rows
        &&& self.vol_lines@.len() == self.max_rows
    }

    /// The six columns, in printed order.
    pub open spec fn columns(&self) -> Seq<Seq<Seq<char>>> {
        seq![
            views(self.date_lines@),
            views(self.dest_lines@),
            views(self.detail_lines@),
            views(self.kukan_lines@),
            views(self.price_lines@),
            views(self.vol_lines@),
        ]
    }

    /// Some column has a non-blank entry at `row`.
    pub open spec fn row_has_content(&self, row: int) -> bool {
        exists|c: int| 0 <= c < 6 && !is_blank(#[trigger] cell(self.columns()[c], row))
    }

    /// What formatting `ryohi` yields, column by column.
    pub open spec fn is_print_data_of(&self, ryohi: Ryohi, dmax: nat, kmax: nat) -> bool {
        &&& self.max_rows == record_rows(ryohi, dmax, kmax)
        &&& self.columns() == record_columns(ryohi, dmax, kmax)
    }
}

fn cell_of(col: &Vec<String>, row: usize) -> (r: &str)
    ensures
        r@ == cell(views(col@), row as int),
{
    if row < col.len() {
        col[row].as_str()
    } else {
        proof {
            reveal_strlit("");
        }
        assert(""@ =~= Seq::<char>::empty());
        ""
    }
}

impl RyohiPrintData {
    /// Whether any column has a non-blank entry at `row`; rows past the end
    /// have none.
    pub fn has_content_in_row(&self, row: usize) -> (r: bool)
        ensures
            r == self.row_has_content(row as int),
    {
        let cols = [
            cell_of(&self.date_lines, row),
            cell_of(&self.dest_lines, row),
            cell_of(&self.detail_lines, row),
            cell_of(&self.kukan_lines, row),
            cell_of(&self.price_lines, row),
            cell_of(&self.vol_lines, row),
        ];
        let mut c: usize = 0;
        while c < 6
            invariant
                c <= 6,
                forall|k: int| 0 <= k < 6 ==> (#[trigger] cols@[k])@ == cell(self.columns()[k], row as int),
                forall|k: int| 0 <= k < c ==> is_blank(#[trigger] cell(self.columns()[k], row as int)),
            decreases 6 - c,
        {
            if !is_blank_str(cols[c]) {
                return true;
            }
            c = c + 1;
        }
        false
    }

    /// The date entry at `row`, empty past the end.
    pub fn get_date(&self, row: usize) -> (r: &str)
        ensures
            r@ == cell(views(self.date_lines@), row as int),
    {
        cell_of(&self.date_lines, row)
    }

    /// The destination entry at `row`, empty past the end.
    pub fn get_dest(&self, row: usize) -> (r: &str)
        ensures
            r@ == cell(views(self.dest_lines@), row as int),
    {
        cell_of(&self.dest_lines, row)
    }

    /// The detail entry at `row`, empty past the end.
    pub fn get_detail(&self, row: usize) -> (r: &str)
        ensures
            r@ == cell(views(self.detail_lines@), row as int),
    {
        cell_of(&self.detail_lines, row)
    }

    /// The route entry at `row`, empty past the end.
    pub fn get_kukan(&self, row: usize) -> (r: &str)
        ensures
            r@ == cell(views(self.kukan_lines@), row as int),
    {
        cell_of(&self.kukan_lines, row)
    }

    /// The amount entry at `row`, empty past the end.
    pub fn get_price(&self, row: usize) -> (r: &str)
        ensures
            r@ == cell(views(self.price_lines@), row as int),
    {
        cell_of(&self.price_lines, row)
    }

    /// The quantity entry at `row`, empty past the end.
    pub fn get_vol(&self, row: usize) -> (r: &str)
        ensures
            r@ == cell(views(self.vol_lines@), row as int),
    {
        cell_of(&self.vol_lines, row)
    }
}

/// Formats one record: wraps both free-text fields, takes the larger row
/// count (at least one) as its height, and pads every column to it.
pub fn prepare_ryohi_for_print(ryohi: &Ryohi, max_detail_len: usize, max_kukan_len: usize) -> (r:
    RyohiPrintData)
    requires
        max_kukan_len < usize::MAX,
    ensures
        r.wf(),
        r.is_print_data_of(*ryohi, max_detail_len as nat, max_kukan_len as nat),
{
    let detail_result = if ryohi.detail.len() != 0 {
        wrap_detail(ryohi.detail.as_slice(), max_detail_len)
    } else {
        TextWrapResult::single(String::new())
    };
    let kukan_result = match &ryohi.kukan {
        Some(k) => wrap_kukan(k.as_str(), max_kukan_len),
        None => TextWrapResult::single(String::new()),
    };
    let a = detail_result.row_count;
    let b = kukan_result.row_count;
    let m = if a >= b { a } else { b };
    let max_rows = if m >= 1 { m } else { 1 };
    let date = match &ryohi.date {
        Some(s) => Some(s.as_str()),
        None => None,
    };
    let dest = match &ryohi.dest {
        Some(s) => Some(s.as_str()),
        None => None,
    };
    let (date_lines, dest_lines, price_lines, vol_lines) = align_rows(
        date,
        dest,
        ryohi.price,
        ryohi.vol,
        max_rows,
    );
    let detail_lines = extend_to_max_rows(&detail_result.lines, max_rows);
    let kukan_lines = extend_to_max_rows(&kukan_result.lines, max_rows);
    proof {
        lemma_drop_blank_len(views(detail_result.lines@));
        lemma_drop_blank_len(views(kukan_result.lines@));
        assert(views(detail_lines@).len() == detail_lines@.len());
        assert(views(kukan_lines@).len() == kukan_lines@.len());
        assert(views(date_lines@).len() == date_lines@.len());
        assert(views(dest_lines@).len() == dest_lines@.len());
        assert(views(price_lines@).len() == price_lines@.len());
        assert(views(vol_lines@).len() == vol_lines@.len());
    }
    let r = RyohiPrintData {
        date_lines,
        dest_lines,
        detail_lines,
        kukan_lines,
        price_lines,
        vol_lines,
        max_rows,
    };
    assert(r.columns() =~= record_columns(*ryohi, max_detail_len as nat, max_kukan_len as nat));
    r
}

proof fn lemma_joined_starts(ds: Seq<Seq<char>>)
    requires
        ds.len() > 0,
    ensures
        joined(ds).len() >= ds[0].len(),
    decreases ds.len(),
{
    if ds.len() > 1 {
        lemma_joined_starts(ds.drop_last());
    }
}

proof fn lemma_detail_fold_joined(ds: Seq<Seq<char>>, max: nat)
    requires
        ds.len() > 0,
        ds[0].len() > 0,
        joined(ds).len() <= max,
    ensures
        detail_fold(ds, max) == (Seq::<Seq<char>>::empty(), joined(ds)),
    decreases ds.len(),
{
    let p = ds.drop_last();
    if ds.len() == 1 {
        assert(p =~= Seq::<Seq<char>>::empty());
        assert(detail_fold(p, max) == (Seq::<Seq<char>>::empty(), Seq::<char>::empty()));
        assert(Seq::<char>::empty() + Seq::<char>::empty() + ds[0] =~= ds[0]);
        assert(joined(ds) == ds[0]);
    } else {
        assert(p[0] == ds[0]);
        assert(joined(ds) == joined(p) + seq![DETAIL_SEPARATOR] + ds.last());
        lemma_joined_starts(p);
        lemma_detail_fold_joined(p, max);
        let st = detail_fold(p, max);
        assert(st.1.len() > 0);
        assert(detail_fold(ds, max) == detail_step(st, ds.last(), max));
    }
}

/// When the fragments joined with the separator fit in `max` characters,
/// detail wrapping yields exactly that one joined line. The first fragment
/// must not be empty (an empty leading fragment takes no separator) and the
/// joined line must not be blank (blank lines are left out).
pub proof fn lemma_detail_fits_one_line(ds: Seq<Seq<char>>, max: nat)
    requires
        ds.len() > 0,
        ds[0].len() > 0,
        joined(ds).len() <= max,
        !is_blank(joined(ds)),
    ensures
        detail_lines(ds, max) == seq![joined(ds)],
{
    lemma_detail_fold_joined(ds, max);
    lemma_joined_starts(ds);
    let one = seq![joined(ds)];
    assert(flush(Seq::<Seq<char>>::empty(), joined(ds)) =~= one);
    assert(one.drop_last() =~= Seq::<Seq<char>>::empty());
    assert(drop_blank(one.drop_last()) == Seq::<Seq<char>>::empty());
    assert(one.last() == joined(ds));
    assert(drop_blank(one) =~= Seq::<Seq<char>>::empty().push(joined(ds)));
}

/// An empty route yields exactly one line, and that line is empty, for
/// every line width.
pub proof fn lemma_empty_route_one_line(max: nat)
    ensures
        route_lines(Seq::<char>::empty(), max) == seq![Seq::<char>::empty()],
{
}

proof fn lemma_route_step_keeps(st: (Seq<Seq<char>>, Seq<char>, nat), p: Seq<char>, max: nat)
    ensures
        route_step(st, p, max).0.len() >= st.0.len(),
        forall|k: int| 0 <= k < st.0.len() ==> #[trigger] route_step(st, p, max).0[k] == st.0[k],
{
}

proof fn lemma_route_fold_exceed(ps: Seq<Seq<char>>, max: nat, j: int)
    requires
        0 <= j < ps.len(),
        ps[j].len() > max,
    ensures
        route_fold(ps, max).0.contains(exceed_line()),
    decreases ps.len(),
{
    let p = ps.drop_last();
    let st = route_fold(p, max);
    let next = route_step(st, ps.last(), max);
    assert(route_fold(ps, max) == next);
    if j == ps.len() - 1 {
        assert(next.0 == st.0.push(exceed_line()));
        assert(next.0[st.0.len() as int] == exceed_line());
    } else {
        assert(p[j] == ps[j]);
        lemma_route_fold_exceed(p, max, j);
        let k = choose|k: int| 0 <= k < st.0.len() && st.0[k] == exceed_line();
        lemma_route_step_keeps(st, ps.last(), max);
        assert(next.0[k] == exceed_line());
    }
}

/// A route segment longer than a line shows up as the line `exceed*`.
pub proof fn lemma_long_segment_exceeds(s: Seq<char>, max: nat, j: int)
    requires
        0 <= j < split_route(normalize_route(s)).len(),
        split_route(normalize_route(s))[j].len() > max,
    ensures
        route_lines(s, max).contains(exceed_line()),
{
    if s.len() == 0 {
        assert(replace_all(s, kyushu_pattern(), kyushu_replacement()) == s);
        assert(replace_all(s, apply_pattern(), apply_replacement()) == s);
        assert(normalize_route(s) =~= s);
        assert(split_route(s) == seq![Seq::<char>::empty()]);
        assert(false);
    }
    let ps = split_route(normalize_route(s));
    lemma_route_fold_exceed(ps, max, j);
    let st = route_fold(ps, max);
    let k = choose|k: int| 0 <= k < st.0.len() && st.0[k] == exceed_line();
    let packed = route_packed(ps, max);
    assert(packed[k] == exceed_line());
    let e = exceed_line();
    assert(full_width_spaces(e) =~= e);
    assert(tidy(e) == e);
    assert(route_lines(s, max)[k] == e);
}

/// A column of `n` rows has exactly `n` entries, all empty but the first.
pub proof fn lemma_column_shape(first: Seq<char>, n: nat)
    ensures
        column(first, n).len() == n,
        n >= 1 ==> column(first, n)[0] == first,
        forall|i: int| 1 <= i < n ==> (#[trigger] column(first, n)[i]).len() == 0,
{
}

/// Every column of a formatted record has the same number of rows: the
/// larger of the two wrapped fields' row counts, and at least one.
pub proof fn lemma_record_columns_equal_length(r: Ryohi, dmax: nat, kmax: nat)
    ensures
        forall|c: int|
            0 <= c < 6 ==> (#[trigger] record_columns(r, dmax, kmax)[c]).len() == record_rows(
                r,
                dmax,
                kmax,
            ),
        record_rows(r, dmax, kmax) == ({
            let a = detail_rows(r, dmax).len();
            let b = kukan_rows(r, kmax).len();
            let m = if a >= b { a } else { b };
            if m >= 1 { m } else { 1 }
        }),
{
    lemma_drop_blank_len(detail_rows(r, dmax));
    lemma_drop_blank_len(kukan_rows(r, kmax));
}

/// Formatting has no hidden state: two results that formatting the same
/// record can yield are equal, column by column.
pub proof fn lemma_prepare_deterministic(
    r: Ryohi,
    dmax: nat,
    kmax: nat,
    a: RyohiPrintData,
    b: RyohiPrintData,
)
    requires
        a.is_print_data_of(r, dmax, kmax),
        b.is_print_data_of(r, dmax, kmax),
    ensures
        a.max_rows == b.max_rows,
        a.columns() == b.columns(),
{
}

} // verus!
