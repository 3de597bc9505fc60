//! Page assembly: formatted records packed into a page with a fixed budget
//! of logical rows, two logical rows to each printed table row.

use vstd::prelude::*;
use crate::chars::{FULL_WIDTH_SPACE, chars_of, is_blank, is_blank_str, push_char, string_of};
use crate::models::{Ryohi, split_char, split_chars};
use crate::text_utils::{
    RyohiPrintData, cell, has_date_shape, prepare_ryohi_for_print, record_columns, record_rows,
};

verus! {

/// Printed table rows of data on one page.
pub const MAX_DATA_ROWS_PER_PAGE: usize = 7;

/// Logical rows on one page: two to each printed table row.
pub const MAX_LOGICAL_ROWS_PER_PAGE: usize = 14;

/// Widest detail line, in characters.
pub const MAX_DETAIL_LENGTH: usize = 10;

/// Widest route line, in characters.
pub const MAX_KUKAN_LENGTH: usize = 22;

/// Width of the date column, in tenths of a millimetre.
pub const COL_WIDTH_DATE: u32 = 150;

/// Width of the destination column, in tenths of a millimetre.
pub const COL_WIDTH_DEST: u32 = 140;

/// Width of the detail column, in tenths of a millimetre.
pub const COL_WIDTH_DETAIL: u32 = 260;

/// Width of the route column, in tenths of a millimetre.
pub const COL_WIDTH_KUKAN: u32 = 575;

/// Width of the amount column, in tenths of a millimetre.
pub const COL_WIDTH_PRICE: u32 = 220;

/// Width of the quantity column, in tenths of a millimetre.
pub const COL_WIDTH_VOL: u32 = 130;

/// Left page margin, in tenths of a millimetre.
pub const MARGIN_LEFT: u32 = 100;

/// Left edge of each column, in tenths of a millimetre from the page edge.
pub const COL_X_DATE: u32 = MARGIN_LEFT;
pub const COL_X_DEST: u32 = COL_X_DATE + COL_WIDTH_DATE;
pub const COL_X_DETAIL: u32 = COL_X_DEST + COL_WIDTH_DEST;
pub const COL_X_KUKAN: u32 = COL_X_DETAIL + COL_WIDTH_DETAIL;
pub const COL_X_PRICE: u32 = COL_X_KUKAN + COL_WIDTH_KUKAN;
pub const COL_X_VOL: u32 = COL_X_PRICE + COL_WIDTH_PRICE;

/// A data column that the record rows fill.
#[derive(Clone, Copy, Debug, PartialEq, Eq, Structural)]
pub enum Column {
    Date,
    Dest,
    Detail,
    Kukan,
    Price,
    Vol,
}

/// The column at position `c` of a formatted record.
pub open spec fn column_at(c: int) -> Column {
    if c == 0 {
        Column::Date
    } else if c == 1 {
        Column::Dest
    } else if c == 2 {
        Column::Detail
    } else if c == 3 {
        Column::Kukan
    } else if c == 4 {
        Column::Price
    } else {
        Column::Vol
    }
}

fn column_for(c: usize) -> (r: Column)
    requires
        c < 6,
    ensures
        r == column_at(c as int),
{
    if c == 0 {
        Column::Date
    } else if c == 1 {
        Column::Dest
    } else if c == 2 {
        Column::Detail
    } else if c == 3 {
        Column::Kukan
    } else if c == 4 {
        Column::Price
    } else {
        Column::Vol
    }
}

/// A text to draw: its column, its printed table row, and which of the
/// two half rows of that table row it takes.
pub struct PlacedText {
    pub column: Column,
    pub physical_row: usize,
    pub sub_row: usize,
    pub text: String,
}

impl View for PlacedText {
    type V = (Column, nat, nat, Seq<char>);

    open spec fn view(&self) -> (Column, nat, nat, Seq<char>) {
        (self.column, self.physical_row as nat, self.sub_row as nat, self.text@)
    }
}

/// Some column has a non-blank entry at `row`.
pub open spec fn content_at(cols: Seq<Seq<Seq<char>>>, row: int) -> bool {
    exists|c: int| 0 <= c < 6 && !is_blank(#[trigger] cell(cols[c], row))
}

/// The texts of `row` among its first `c` columns, placed in logical slot
/// `slot`: one for each non-blank entry.
pub open spec fn row_texts(cols: Seq<Seq<Seq<char>>>, row: int, slot: nat, c: nat) -> Seq<
    (Column, nat, nat, Seq<char>),
>
    decreases c,
{
    if c == 0 {
        seq![]
    } else {
        let before = row_texts(cols, row, slot, (c - 1) as nat);
        let t = cell(cols[c - 1], row);
        if is_blank(t) {
            before
        } else {
            before.push((column_at(c - 1), slot / 2, slot % 2, t))
        }
    }
}

/// Texts placed so far and logical rows used. A row with content takes
/// the next slot while the budget lasts; a row without content takes none.
pub open spec fn place_row(
    st: (Seq<(Column, nat, nat, Seq<char>)>, nat),
    cols: Seq<Seq<Seq<char>>>,
    row: int,
    cap: nat,
) -> (Seq<(Column, nat, nat, Seq<char>)>, nat) {
    if st.1 < cap && content_at(cols, row) {
        (st.0 + row_texts(cols, row, st.1, 6), st.1 + 1)
    } else {
        st
    }
}

/// The state after the first `n` rows of a record.
pub open spec fn place_rows(
    st: (Seq<(Column, nat, nat, Seq<char>)>, nat),
    cols: Seq<Seq<Seq<char>>>,
    n: nat,
    cap: nat,
) -> (Seq<(Column, nat, nat, Seq<char>)>, nat)
    decreases n,
{
    if n == 0 {
        st
    } else {
        place_row(place_rows(st, cols, (n - 1) as nat, cap), cols, n - 1, cap)
    }
}

/// The state after the records `rs`, each formatted with the page's line
/// widths.
pub open spec fn place_records(rs: Seq<Ryohi>, cap: nat) -> (
    Seq<(Column, nat, nat, Seq<char>)>,
    nat,
)
    decreases rs.len(),
{
    if rs.len() == 0 {
        (seq![], 0)
    } else {
        let r = rs.last();
        place_rows(
            place_records(rs.drop_last(), cap),
            record_columns(r, MAX_DETAIL_LENGTH as nat, MAX_KUKAN_LENGTH as nat),
            record_rows(r, MAX_DETAIL_LENGTH as nat, MAX_KUKAN_LENGTH as nat),
            cap,
        )
    }
}

proof fn lemma_place_rows_full(
    st: (Seq<(Column, nat, nat, Seq<char>)>, nat),
    cols: Seq<Seq<Seq<char>>>,
    n: nat,
    cap: nat,
)
    requires
        st.1 >= cap,
    ensures
        place_rows(st, cols, n, cap) == st,
    decreases n,
{
    if n > 0 {
        lemma_place_rows_full(st, cols, (n - 1) as nat, cap);
    }
}

/// Once the budget is spent, later records change nothing.
proof fn lemma_place_records_full(rs: Seq<Ryohi>, i: int, j: int, cap: nat)
    requires
        0 <= i <= j <= rs.len(),
        place_records(rs.take(i), cap).1 >= cap,
    ensures
        place_records(rs.take(j), cap) == place_records(rs.take(i), cap),
    decreases j - i,
{
    if j > i {
        lemma_place_records_full(rs, i, j - 1, cap);
        assert(rs.take(j).drop_last() =~= rs.take(j - 1));
        let r = rs.take(j).last();
        lemma_place_rows_full(
            place_records(rs.take(j - 1), cap),
            record_columns(r, MAX_DETAIL_LENGTH as nat, MAX_KUKAN_LENGTH as nat),
            record_rows(r, MAX_DETAIL_LENGTH as nat, MAX_KUKAN_LENGTH as nat),
            cap,
        );
    }
}

fn row_cell(p: &RyohiPrintData, c: usize, row: usize) -> (r: &str)
    requires
        c < 6,
    ensures
        r@ == cell(p.columns()[c as int], row as int),
{
    if c == 0 {
        p.get_date(row)
    } else if c == 1 {
        p.get_dest(row)
    } else if c == 2 {
        p.get_detail(row)
    } else if c == 3 {
        p.get_kukan(row)
    } else if c == 4 {
        p.get_price(row)
    } else {
        p.get_vol(row)
    }
}

/// Packs the records onto one page of `capacity` logical rows. Records are
/// formatted in order; each of their rows that has content takes the next
/// logical row, which lands in printed row `slot / 2`, half row
/// `slot % 2`. Rows without content take no budget. Once the budget is
/// spent nothing more is placed: the rest of the records is dropped.
pub fn place_ryohi_items(ryohi_list: &[Ryohi], capacity: usize) -> (r: Vec<PlacedText>)
    ensures
        r@.map_values(|t: PlacedText| t@) == place_records(ryohi_list@, capacity as nat).0,
{
    let ghost rs = ryohi_list@;
    let mut out: Vec<PlacedText> = Vec::new();
    let mut used: usize = 0;
    let mut i: usize = 0;
    while i < ryohi_list.len() && used < capacity
        invariant
            i <= ryohi_list.len(),
            rs == ryohi_list@,
            (out@.map_values(|t: PlacedText| t@), used as nat) == place_records(rs.take(i as int), capacity as nat),
            used <= capacity,
        decreases ryohi_list.len() - i,
    {
        assert(rs.take(i + 1).drop_last() =~= rs.take(i as int));
        assert(rs.take(i + 1).last() == rs[i as int]);
        let pd = prepare_ryohi_for_print(&ryohi_list[i], MAX_DETAIL_LENGTH, MAX_KUKAN_LENGTH);
        let ghost cols = pd.columns();
        let ghost st0 = (out@.map_values(|t: PlacedText| t@), used as nat);
        let mut row: usize = 0;
        while row < pd.max_rows
            invariant
                row <= pd.max_rows,
                cols == pd.columns(),
                st0.1 <= capacity,
                (out@.map_values(|t: PlacedText| t@), used as nat) == place_rows(st0, cols, row as nat, capacity as nat),
                used <= capacity,
            decreases pd.max_rows - row,
        {
            if used < capacity && pd.has_content_in_row(row) {
                let ghost before = out@.map_values(|t: PlacedText| t@);
                let mut c: usize = 0;
                while c < 6
                    invariant
                        c <= 6,
                        cols == pd.columns(),
                        used < capacity,
                        out@.map_values(|t: PlacedText| t@) == before + row_texts(cols, row as int, used as nat, c as nat),
                    decreases 6 - c,
                {
                    let t = row_cell(&pd, c, row);
                    let ghost prev = out@.map_values(|t: PlacedText| t@);
                    if !is_blank_str(t) {
                        let placed = PlacedText {
                            column: column_for(c),
                            physical_row: used / 2,
                            sub_row: used % 2,
                            text: String::from_str(t),
                        };
                        assert(placed@ == (column_at(c as int), (used as nat) / 2, (used as nat) % 2, t@));
                        out.push(placed);
                        assert(out@.map_values(|t: PlacedText| t@) =~= prev.push(placed@));
                    }
                    assert(out@.map_values(|t: PlacedText| t@) =~= before + row_texts(cols, row as int, used as nat, (c + 1) as nat));
                    c = c + 1;
                }
                used = used + 1;
            }
            row = row + 1;
        }
        i = i + 1;
    }
    proof {
        if i < ryohi_list.len() {
            lemma_place_records_full(rs, i as int, rs.len() as int, capacity as nat);
        }
        assert(rs.take(rs.len() as int) =~= rs);
    }
    out
}

/// The start or end date of a trip as written on the form: `MM　 DD` for a
/// `YYYY-MM-DD` date, otherwise the text as given.
pub open spec fn trip_date_text(s: Seq<char>) -> Seq<char> {
    if has_date_shape(s) {
        s.subrange(5, 7) + seq![FULL_WIDTH_SPACE, ' '] + s.subrange(8, 10)
    } else {
        s
    }
}

/// Writes a `YYYY-MM-DD` date as month and day for the trip dates.
pub fn format_date_mmdd(date: &str) -> (r: Option<String>)
    ensures
        r matches Some(t) && t@ == trip_date_text(date@),
{
    if date.unicode_len() >= 10 && date.get_char(4) == '-' && date.get_char(7) == '-' {
        let mut out = String::from_str(date.substring_char(5, 7));
        push_char(&mut out, FULL_WIDTH_SPACE);
        push_char(&mut out, ' ');
        out.append(date.substring_char(8, 10));
        Some(out)
    } else {
        Some(String::from_str(date))
    }
}

/// The separator of a pay day: `/` when the text has one, else `-`.
pub open spec fn pay_day_separator(s: Seq<char>) -> char {
    if s.contains('/') { '/' } else { '-' }
}

/// A pay day as printed in the header, when it has three parts.
pub open spec fn pay_day_text(s: Seq<char>) -> Option<Seq<char>> {
    let p = split_char(s, pay_day_separator(s));
    if p.len() == 3 {
        Some(
            seq!['清', '算', '日', FULL_WIDTH_SPACE] + p[0] + seq!['年', ' '] + p[1] + seq!['月', ' ']
                + p[2] + seq!['日'],
        )
    } else {
        None
    }
}

fn has_char(s: &Vec<char>, c: char) -> (r: bool)
    ensures
        r == s@.contains(c),
{
    let mut i: usize = 0;
    while i < s.len()
        invariant
            i <= s.len(),
            forall|k: int| 0 <= k < i ==> s@[k] != c,
        decreases s.len() - i,
    {
        if s[i] == c {
            return true;
        }
        i = i + 1;
    }
    false
}

fn push_all(out: &mut Vec<char>, s: &Vec<char>)
    ensures
        final(out)@ == old(out)@ + s@,
{
    let mut i: usize = 0;
    while i < s.len()
        invariant
            i <= s.len(),
            out@ == old(out)@ + s@.take(i as int),
        decreases s.len() - i,
    {
        out.push(s[i]);
        assert(out@ =~= old(out)@ + s@.take(i + 1));
        i = i + 1;
    }
    assert(s@.take(s.len() as int) =~= s@);
}

/// Writes a `YYYY/MM/DD` (or `YYYY-MM-DD`) pay day for the form header;
/// `None` when it does not have three parts.
pub fn format_pay_day_full(pay_day: &str) -> (r: Option<String>)
    ensures
        match r {
            Some(t) => pay_day_text(pay_day@) == Some(t@),
            None => pay_day_text(pay_day@) is None,
        },
{
    let s = chars_of(pay_day);
    let sep = if has_char(&s, '/') { '/' } else { '-' };
    let parts = split_chars(&s, sep);
    if parts.len() == 3 {
        assert(parts@[0]@ == split_char(pay_day@, sep)[0]);
        assert(parts@[1]@ == split_char(pay_day@, sep)[1]);
        assert(parts@[2]@ == split_char(pay_day@, sep)[2]);
        let mut v: Vec<char> = vec!['清', '算', '日', FULL_WIDTH_SPACE];
        push_all(&mut v, &parts[0]);
        v.push('年');
        v.push(' ');
        push_all(&mut v, &parts[1]);
        v.push('月');
        v.push(' ');
        push_all(&mut v, &parts[2]);
        v.push('日');
        assert(Some(v@) =~= pay_day_text(pay_day@));
        Some(string_of(&v))
    } else {
        None
    }
}

} // verus!
