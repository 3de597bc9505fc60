//! Settings of the PDF service.

use vstd::prelude::*;

verus! {

/// Where documents go, where the print helper lives, and whether printing
/// shows a window.
#[derive(Clone, Debug)]
pub struct PdfConfig {
    pub output_path: String,
    pub sumatra_path: Option<String>,
    pub headless: bool,
}

/// The default output directory, `./output`.
pub open spec fn default_output_path() -> Seq<char> {
    seq!['.', '/', 'o', 'u', 't', 'p', 'u', 't']
}

/// The text `false`.
pub open spec fn false_text() -> Seq<char> {
    seq!['f', 'a', 'l', 's', 'e']
}

/// A name for what `str::to_lowercase` returns.
pub uninterp spec fn lower_of(s: Seq<char>) -> Seq<char>;

/// Relies on `str::to_lowercase`: the result depends on the characters
/// alone.
#[verifier::external_body]
fn lowercase(s: &str) -> (r: String)
    ensures
        r@ == lower_of(s@),
{
    s.to_lowercase()
}

fn is_false_text(s: &str) -> (r: bool)
    ensures
        r == (s@ == false_text()),
{
    if s.unicode_len() != 5 {
        return false;
    }
    let r = s.get_char(0) == 'f' && s.get_char(1) == 'a' && s.get_char(2) == 'l' && s.get_char(3)
        == 's' && s.get_char(4) == 'e';
    if r {
        assert(s@ =~= false_text());
    }
    r
}

impl Default for PdfConfig {
    fn default() -> (r: PdfConfig)
        ensures
            r.output_path@ == default_output_path(),
            r.sumatra_path is None,
            r.headless,
    {
        proof {
            reveal_strlit("./output");
        }
        let output_path = String::from_str("./output");
        assert(output_path@ =~= default_output_path());
        PdfConfig { output_path, sumatra_path: None, headless: true }
    }
}

impl PdfConfig {
    /// The default settings: output to `./output`, no print helper path,
    /// headless.
    pub fn new() -> (r: PdfConfig)
        ensures
            r.output_path@ == default_output_path(),
            r.sumatra_path is None,
            r.headless,
    {
        PdfConfig::default()
    }

    pub fn with_output_path(self, path: String) -> (r: PdfConfig)
        ensures
            r.output_path == path,
            r.sumatra_path == self.sumatra_path,
            r.headless == self.headless,
    {
        PdfConfig { output_path: path, ..self }
    }

    pub fn with_sumatra_path(self, path: String) -> (r: PdfConfig)
        ensures
            r.output_path == self.output_path,
            r.sumatra_path == Some(path),
            r.headless == self.headless,
    {
        PdfConfig { sumatra_path: Some(path), ..self }
    }

    pub fn with_headless(self, headless: bool) -> (r: PdfConfig)
        ensures
            r.output_path == self.output_path,
            r.sumatra_path == self.sumatra_path,
            r.headless == headless,
    {
        PdfConfig { headless, ..self }
    }

    /// Whether an already lowercased headless setting keeps printing
    /// headless: every value but `false` does.
    pub fn headless_from_lowered(lowered: &str) -> (r: bool)
        ensures
            r == (lowered@ != false_text()),
    {
        !is_false_text(lowered)
    }

    /// The default settings overridden by the values that are given: an
    /// output directory, a print helper path, and a headless setting that
    /// turns headless off only when it reads `false` in any case.
    pub fn from_values(
        output_path: Option<String>,
        sumatra_path: Option<String>,
        headless: Option<String>,
    ) -> (r: PdfConfig)
        ensures
            r.output_path@ == (match output_path {
                Some(p) => p@,
                None => default_output_path(),
            }),
            r.sumatra_path == sumatra_path,
            r.headless == (match headless {
                Some(h) => lower_of(h@) != false_text(),
                None => true,
            }),
    {
        let mut config = PdfConfig::new();
        match output_path {
            Some(p) => {
                config.output_path = p;
            },
            None => {},
        }
        match sumatra_path {
            Some(p) => {
                config.sumatra_path = Some(p);
            },
            None => {},
        }
        match headless {
            Some(h) => {
                let lowered = lowercase(h.as_str());
                config.headless = PdfConfig::headless_from_lowered(lowered.as_str());
            },
            None => {},
        }
        config
    }
}

} // verus!
