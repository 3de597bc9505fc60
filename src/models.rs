//! Expense records and the display rules for their scalar fields.

use vstd::prelude::*;
use crate::chars::{chars_of, string_of};

verus! {

/// One expense line of a settlement: scalar fields and two free-text fields.
pub struct Ryohi {
    /// Date, normally `YYYY-MM-DD`.
    pub date: Option<String>,
    /// Destination.
    pub dest: Option<String>,
    /// Short expense-category labels, joined and wrapped for printing.
    pub detail: Vec<String>,
    /// Itinerary: place names separated by spaces or pipes.
    pub kukan: Option<String>,
    /// Amount.
    pub price: Option<i32>,
    /// Quantity, in tenths of a unit (`15` stands for `1.5`).
    pub vol: Option<i64>,
}

impl Default for Ryohi {
    fn default() -> (r: Ryohi)
        ensures
            r.date is None,
            r.dest is None,
            r.detail@.len() == 0,
            r.kukan is None,
            r.price is None,
            r.vol is None,
    {
        Ryohi { date: None, dest: None, detail: Vec::new(), kukan: None, price: None, vol: None }
    }
}

/// The decimal digit for `d < 10`.
pub open spec fn digit_char(d: nat) -> char {
    ((d + 48) as u8) as char
}

/// Decimal notation of a natural number, without leading zeros.
pub open spec fn decimal(n: nat) -> Seq<char>
    decreases n,
{
    if n < 10 {
        seq![digit_char(n)]
    } else {
        decimal(n / 10).push(digit_char(n % 10))
    }
}

/// Decimal notation with a comma between each group of three digits,
/// counted from the right.
pub open spec fn grouped(n: nat) -> Seq<char>
    decreases n,
{
    if n < 1000 {
        decimal(n)
    } else {
        grouped(n / 1000) + seq![',', digit_char(n % 1000 / 100), digit_char(n % 100 / 10), digit_char(n % 10)]
    }
}

/// An amount with thousands separators and a leading `-` when negative.
pub open spec fn price_text(p: int) -> Seq<char> {
    if p < 0 {
        seq!['-'] + grouped((-p) as nat)
    } else {
        grouped(p as nat)
    }
}

/// A quantity given in tenths, written with exactly one decimal digit.
pub open spec fn tenths_text(t: int) -> Seq<char> {
    let m: nat = if t < 0 { (-t) as nat } else { t as nat };
    let body = decimal(m / 10) + seq!['.', digit_char(m % 10)];
    if t < 0 { seq!['-'] + body } else { body }
}

/// The pieces of `s` between occurrences of `sep`; empty pieces are kept.
pub open spec fn split_char(s: Seq<char>, sep: char) -> Seq<Seq<char>>
    decreases s.len(),
{
    if s.len() == 0 {
        seq![Seq::<char>::empty()]
    } else {
        let rest = split_char(s.drop_last(), sep);
        if s.last() == sep {
            rest.push(Seq::<char>::empty())
        } else {
            rest.update(rest.len() - 1, rest.last().push(s.last()))
        }
    }
}

/// `Y-M-D` (split on `sep`) written as `Y年M月D日`; anything that does not
/// split into three pieces is kept as it is.
pub open spec fn kanji_date(s: Seq<char>, sep: char) -> Seq<char> {
    let p = split_char(s, sep);
    if p.len() == 3 {
        p[0] + seq!['年'] + p[1] + seq!['月'] + p[2] + seq!['日']
    } else {
        s
    }
}

fn digit(d: u64) -> (c: char)
    requires
        d < 10,
    ensures
        c == digit_char(d as nat),
{
    ((d as u8) + 48u8) as char
}

fn decimal_chars(n: u64) -> (r: Vec<char>)
    ensures
        r@ == decimal(n as nat),
    decreases n,
{
    if n < 10 {
        vec![digit(n)]
    } else {
        let mut v = decimal_chars(n / 10);
        v.push(digit(n % 10));
        v
    }
}

fn grouped_chars(n: u64) -> (r: Vec<char>)
    ensures
        r@ == grouped(n as nat),
    decreases n,
{
    if n < 1000 {
        decimal_chars(n)
    } else {
        let mut v = grouped_chars(n / 1000);
        v.push(',');
        v.push(digit(n % 1000 / 100));
        v.push(digit(n % 100 / 10));
        v.push(digit(n % 10));
        assert(v@ =~= grouped(n as nat));
        v
    }
}

/// Formats an amount with a comma between groups of three digits.
pub fn format_price(price: i32) -> (r: String)
    ensures
        r@ == price_text(price as int),
{
    if price < 0 {
        let m: u64 = (-(price as i64)) as u64;
        let g = grouped_chars(m);
        let mut v: Vec<char> = vec!['-'];
        let mut i: usize = 0;
        while i < g.len()
            invariant
                i <= g.len(),
                v@ == seq!['-'] + g@.subrange(0, i as int),
            decreases g.len() - i,
        {
            v.push(g[i]);
            assert(v@ =~= seq!['-'] + g@.subrange(0, i + 1));
            i = i + 1;
        }
        assert(g@.subrange(0, g@.len() as int) =~= g@);
        string_of(&v)
    } else {
        let g = grouped_chars(price as u64);
        string_of(&g)
    }
}

/// Formats a quantity given in tenths with exactly one decimal digit.
pub fn format_tenths(t: i64) -> (r: String)
    ensures
        r@ == tenths_text(t as int),
{
    let neg = t < 0;
    let m: u64 = if neg { ((-(t + 1)) as u64) + 1 } else { t as u64 };
    let whole = decimal_chars(m / 10);
    let mut v: Vec<char> = Vec::new();
    if neg {
        v.push('-');
    }
    let ghost start = v@;
    let mut i: usize = 0;
    while i < whole.len()
        invariant
            i <= whole.len(),
            v@ == start + whole@.subrange(0, i as int),
        decreases whole.len() - i,
    {
        v.push(whole[i]);
        assert(v@ =~= start + whole@.subrange(0, i + 1));
        i = i + 1;
    }
    v.push('.');
    v.push(digit(m % 10));
    assert(whole@.subrange(0, whole@.len() as int) =~= whole@);
    assert(v@ =~= tenths_text(t as int));
    string_of(&v)
}

/// Splits a sequence of characters at each occurrence of `sep`.
pub fn split_chars(s: &Vec<char>, sep: char) -> (r: Vec<Vec<char>>)
    ensures
        r@.map_values(|p: Vec<char>| p@) == split_char(s@, sep),
{
    let mut done: Vec<Vec<char>> = Vec::new();
    let mut cur: Vec<char> = Vec::new();
    let mut i: usize = 0;
    while i < s.len()
        invariant
            i <= s.len(),
            split_char(s@.subrange(0, i as int), sep) == done@.map_values(|p: Vec<char>| p@).push(
                cur@,
            ),
        decreases s.len() - i,
    {
        let ghost pre = s@.subrange(0, i as int);
        assert(s@.subrange(0, i + 1).drop_last() =~= pre);
        if s[i] == sep {
            done.push(cur);
            cur = Vec::new();
        } else {
            cur.push(s[i]);
        }
        assert(split_char(s@.subrange(0, i + 1), sep) =~= done@.map_values(|p: Vec<char>| p@).push(cur@));
        i = i + 1;
    }
    done.push(cur);
    assert(s@.subrange(0, s@.len() as int) =~= s@);
    assert(done@.map_values(|p: Vec<char>| p@) =~= split_char(s@, sep));
    done
}

fn kanji_date_of(date: &str, sep: char) -> (r: String)
    ensures
        r@ == kanji_date(date@, sep),
{
    let s = chars_of(date);
    let parts = split_chars(&s, sep);
    if parts.len() == 3 {
        let mut v: Vec<char> = Vec::new();
        let mut k: usize = 0;
        while k < 3
            invariant
                parts@.len() == 3,
                k <= 3,
                k == 0 ==> v@ == Seq::<char>::empty(),
                k == 1 ==> v@ == parts@[0]@ + seq!['年'],
                k == 2 ==> v@ == parts@[0]@ + seq!['年'] + parts@[1]@ + seq!['月'],
                k == 3 ==> v@ == parts@[0]@ + seq!['年'] + parts@[1]@ + seq!['月'] + parts@[2]@ + seq!['日'],
            decreases 3 - k,
        {
            let p = &parts[k];
            let ghost before = v@;
            let mut j: usize = 0;
            while j < p.len()
                invariant
                    j <= p.len(),
                    v@ == before + p@.subrange(0, j as int),
                decreases p.len() - j,
            {
                v.push(p[j]);
                assert(v@ =~= before + p@.subrange(0, j + 1));
                j = j + 1;
            }
            assert(p@.subrange(0, p@.len() as int) =~= p@);
            if k == 0 {
                v.push('年');
            } else if k == 1 {
                v.push('月');
            } else {
                v.push('日');
            }
            assert(k == 0 ==> v@ =~= parts@[0]@ + seq!['年']);
            assert(k == 1 ==> v@ =~= parts@[0]@ + seq!['年'] + parts@[1]@ + seq!['月']);
            assert(k == 2 ==> v@ =~= parts@[0]@ + seq!['年'] + parts@[1]@ + seq!['月'] + parts@[2]@ + seq!['日']);
            k = k + 1;
        }
        string_of(&v)
    } else {
        string_of(&s)
    }
}

/// Writes a `YYYY-MM-DD` date as `YYYY年MM月DD日`; other text is kept.
pub fn parse_date(date: &str) -> (r: String)
    ensures
        r@ == kanji_date(date@, '-'),
{
    kanji_date_of(date, '-')
}

/// Writes a `YYYY/MM/DD` pay day as `YYYY年MM月DD日`; other text is kept.
pub fn parse_pay_day(date: &str) -> (r: String)
    ensures
        r@ == kanji_date(date@, '/'),
{
    kanji_date_of(date, '/')
}

} // verus!
