//! Choice of a Japanese font among the installed ones.

use vstd::prelude::*;
use crate::error::PdfError;

verus! {

/// Font file names, most preferred first.
pub open spec fn font_candidate_names() -> Seq<Seq<char>> {
    seq![
        "yumin.ttf"@,
        "yugothm.ttf"@,
        "YuGothM.ttf"@,
        "meiryo.ttc"@,
        "msgothic.ttc"@,
        "msmincho.ttc"@,
    ]
}

/// Font file names to look for in the fonts directory, most preferred
/// first: Yu Mincho, Yu Gothic Medium (two spellings), Meiryo, MS Gothic,
/// MS Mincho.
pub fn font_candidates() -> (r: Vec<String>)
    ensures
        r@.map_values(|s: String| s@) == font_candidate_names(),
{
    let r = vec![
        String::from_str("yumin.ttf"),
        String::from_str("yugothm.ttf"),
        String::from_str("YuGothM.ttf"),
        String::from_str("meiryo.ttc"),
        String::from_str("msgothic.ttc"),
        String::from_str("msmincho.ttc"),
    ];
    assert(r@.map_values(|s: String| s@) =~= font_candidate_names());
    r
}

/// Remembers the font file that was chosen.
pub struct FontLoader {
    font_path: Option<String>,
}

impl FontLoader {
    /// The font file chosen so far, if any.
    pub closed spec fn chosen(&self) -> Option<String> {
        self.font_path
    }

    /// A loader that has chosen no font yet.
    pub fn new() -> (r: FontLoader)
        ensures
            r.chosen() is None,
    {
        FontLoader { font_path: None }
    }

    /// Chooses the first of `paths` whose entry in `present` is true, and
    /// remembers it; fails when none is present, leaving the choice as it
    /// was.
    pub fn find_font(&mut self, paths: &[String], present: &[bool]) -> (r: Result<String, PdfError>)
        requires
            paths@.len() == present@.len(),
        ensures
            match r {
                Ok(p) => exists|k: int|
                    0 <= k < present@.len() && present@[k] && (forall|j: int|
                        0 <= j < k ==> !present@[j]) && p@ == paths@[k]@ && final(self).chosen()
                        == Some(p),
                Err(e) => (forall|k: int| 0 <= k < present@.len() ==> !present@[k]) && e is FontLoad
                    && final(self).chosen() == old(self).chosen(),
            },
    {
        let mut k: usize = 0;
        while k < paths.len()
            invariant
                paths@.len() == present@.len(),
                k <= paths@.len(),
                forall|j: int| 0 <= j < k ==> !present@[j],
                self.chosen() == old(self).chosen(),
            decreases paths.len() - k,
        {
            if present[k] {
                let p = paths[k].clone();
                self.font_path = Some(p.clone());
                return Ok(p);
            }
            k = k + 1;
        }
        Err(PdfError::FontLoad(String::from_str("日本語フォントが見つかりません")))
    }

    /// The font file chosen so far, if any.
    pub fn font_path(&self) -> (r: Option<&String>)
        ensures
            match r {
                Some(p) => self.chosen() == Some(*p),
                None => self.chosen() is None,
            },
    {
        match &self.font_path {
            Some(p) => Some(p),
            None => None,
        }
    }
}

impl Default for FontLoader {
    fn default() -> (r: FontLoader)
        ensures
            r.chosen() is None,
    {
        FontLoader::new()
    }
}

} // verus!
