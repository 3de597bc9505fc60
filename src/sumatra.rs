//! The external print helper: where it is, and what its queries report.

use vstd::prelude::*;
use crate::chars::{chars_of, is_blank, is_white, is_white_char, string_of};
use crate::error::PdfError;
use crate::models::{split_char, split_chars};

verus! {

/// Prints documents through an external viewer program.
pub struct SumatraPrinter {
    sumatra_path: Option<String>,
}

/// `s` without whitespace at either end.
pub open spec fn trim_white(s: Seq<char>) -> Seq<char>
    decreases s.len(),
{
    if s.len() > 0 && is_white(s[0]) {
        trim_white(s.skip(1))
    } else if s.len() > 0 && is_white(s.last()) {
        trim_white(s.drop_last())
    } else {
        s
    }
}

/// The non-empty lines among `ls`, in order.
pub open spec fn drop_empty(ls: Seq<Seq<char>>) -> Seq<Seq<char>>
    decreases ls.len(),
{
    if ls.len() == 0 {
        ls
    } else if ls.last().len() == 0 {
        drop_empty(ls.drop_last())
    } else {
        drop_empty(ls.drop_last()).push(ls.last())
    }
}

/// The printer names in a listing of one name per line: each line
/// trimmed, empty lines left out.
pub open spec fn printer_names(s: Seq<char>) -> Seq<Seq<char>> {
    drop_empty(split_char(s, '\n').map_values(|l: Seq<char>| trim_white(l)))
}

proof fn lemma_trim_white_inner(s: Seq<char>, i: int, j: int)
    requires
        0 <= i <= j <= s.len(),
        forall|k: int| 0 <= k < i ==> is_white(#[trigger] s[k]),
        forall|k: int| j <= k < s.len() ==> is_white(#[trigger] s[k]),
        i == j || (!is_white(s[i]) && !is_white(s[j - 1])),
    ensures
        trim_white(s) == s.subrange(i, j),
    decreases s.len(),
{
    if s.len() > 0 && is_white(s[0]) {
        if i == j && i == 0 {
            assert(is_white(s[0]));
        }
        let t = s.skip(1);
        if i > 0 {
            assert forall|k: int| 0 <= k < i - 1 implies is_white(#[trigger] t[k]) by {
                assert(t[k] == s[k + 1]);
            }
            assert forall|k: int| j - 1 <= k < t.len() implies is_white(#[trigger] t[k]) by {
                assert(t[k] == s[k + 1]);
            }
            lemma_trim_white_inner(t, i - 1, j - 1);
            assert(t.subrange(i - 1, j - 1) =~= s.subrange(i, j));
        } else {
            assert(i == 0 && j == 0);
            assert forall|k: int| 0 <= k < t.len() implies is_white(#[trigger] t[k]) by {
                assert(t[k] == s[k + 1]);
            }
            lemma_trim_white_inner(t, 0, 0);
            assert(t.subrange(0, 0) =~= s.subrange(0, 0));
        }
    } else if s.len() > 0 && is_white(s.last()) {
        let t = s.drop_last();
        if j == s.len() {
            assert(i == j);
            assert(false);
        }
        assert forall|k: int| 0 <= k < i implies is_white(#[trigger] t[k]) by {
            assert(t[k] == s[k]);
        }
        assert forall|k: int| j <= k < t.len() implies is_white(#[trigger] t[k]) by {
            assert(t[k] == s[k]);
        }
        if i < j {
            assert(t[i] == s[i]);
            assert(t[j - 1] == s[j - 1]);
        }
        lemma_trim_white_inner(t, i, j);
        assert(t.subrange(i, j) =~= s.subrange(i, j));
    } else {
        if s.len() > 0 {
            if i > 0 {
                assert(is_white(s[0]));
            }
            if j < s.len() {
                assert(is_white(s[s.len() - 1]));
            }
        }
        assert(s.subrange(i, j) =~= s);
    }
}

fn trim_white_chars(v: &Vec<char>) -> (r: Vec<char>)
    ensures
        r@ == trim_white(v@),
{
    let n = v.len();
    let mut i: usize = 0;
    while i < n && is_white_char(v[i])
        invariant
            n == v@.len(),
            i <= n,
            forall|k: int| 0 <= k < i ==> is_white(#[trigger] v@[k]),
        decreases n - i,
    {
        i = i + 1;
    }
    let mut j: usize = n;
    while j > i && is_white_char(v[j - 1])
        invariant
            n == v@.len(),
            i <= j <= n,
            forall|k: int| j <= k < n ==> is_white(#[trigger] v@[k]),
        decreases j - i,
    {
        j = j - 1;
    }
    proof {
        lemma_trim_white_inner(v@, i as int, j as int);
    }
    let mut out: Vec<char> = Vec::new();
    let mut k: usize = i;
    while k < j
        invariant
            i <= k <= j <= n,
            n == v@.len(),
            out@ == v@.subrange(i as int, k as int),
        decreases j - k,
    {
        out.push(v[k]);
        assert(out@ =~= v@.subrange(i as int, k + 1));
        k = k + 1;
    }
    out
}

/// Printer names from a listing of one name per line: lines are trimmed
/// and empty ones left out.
pub fn parse_printer_list(stdout: &str) -> (r: Vec<String>)
    ensures
        r@.map_values(|s: String| s@) == printer_names(stdout@),
{
    let v = chars_of(stdout);
    let lines = split_chars(&v, '\n');
    let ghost ls = split_char(stdout@, '\n').map_values(|l: Seq<char>| trim_white(l));
    let mut out: Vec<String> = Vec::new();
    let mut i: usize = 0;
    while i < lines.len()
        invariant
            i <= lines.len(),
            lines@.map_values(|p: Vec<char>| p@) == split_char(stdout@, '\n'),
            ls == split_char(stdout@, '\n').map_values(|l: Seq<char>| trim_white(l)),
            out@.map_values(|s: String| s@) == drop_empty(ls.take(i as int)),
        decreases lines.len() - i,
    {
        assert(ls.take(i + 1).drop_last() =~= ls.take(i as int));
        assert(lines@[i as int]@ == split_char(stdout@, '\n')[i as int]);
        let t = trim_white_chars(&lines[i]);
        assert(ls.take(i + 1).last() == t@);
        if t.len() != 0 {
            let ghost prev = out@.map_values(|s: String| s@);
            out.push(string_of(&t));
            assert(out@.map_values(|s: String| s@) =~= prev.push(t@));
        }
        i = i + 1;
    }
    assert(ls.take(lines@.len() as int) =~= ls);
    out
}

/// The default printer's name from a query's output: the output trimmed,
/// `None` when nothing is left.
pub fn parse_default_printer(stdout: &str) -> (r: Option<String>)
    ensures
        match r {
            Some(p) => p@ == trim_white(stdout@) && p@.len() > 0,
            None => trim_white(stdout@).len() == 0,
        },
{
    let v = chars_of(stdout);
    let t = trim_white_chars(&v);
    if t.len() == 0 {
        None
    } else {
        Some(string_of(&t))
    }
}

impl SumatraPrinter {
    /// The helper's path, if one is known.
    pub closed spec fn known_path(&self) -> Option<String> {
        self.sumatra_path
    }

    /// A printer that does not know the helper's path yet.
    pub fn new() -> (r: SumatraPrinter)
        ensures
            r.known_path() is None,
    {
        SumatraPrinter { sumatra_path: None }
    }

    /// Sets the helper's path by hand.
    pub fn with_path(self, path: String) -> (r: SumatraPrinter)
        ensures
            r.known_path() == Some(path),
    {
        SumatraPrinter { sumatra_path: Some(path) }
    }

    /// The helper's path, if one is known.
    pub fn path(&self) -> (r: Option<&String>)
        ensures
            match r {
                Some(p) => self.known_path() == Some(*p),
                None => self.known_path() is None,
            },
    {
        match &self.sumatra_path {
            Some(p) => Some(p),
            None => None,
        }
    }

    /// Remembers the helper found by a search; fails when the search found
    /// none, leaving the path as it was.
    pub fn find_sumatra(&mut self, found: Option<String>) -> (r: Result<String, PdfError>)
        ensures
            match found {
                Some(p) => r == Ok::<String, PdfError>(p) && final(self).known_path() == Some(p),
                None => r matches Err(PdfError::Print(_)) && final(self).known_path() == old(
                    self,
                ).known_path(),
            },
    {
        match found {
            Some(p) => {
                self.sumatra_path = Some(p.clone());
                Ok(p)
            },
            None => Err(PdfError::Print(String::from_str("SumatraPDF実行ファイルが見つかりません"))),
        }
    }
}

impl Default for SumatraPrinter {
    fn default() -> (r: SumatraPrinter)
        ensures
            r.known_path() is None,
    {
        SumatraPrinter::new()
    }
}

} // verus!
