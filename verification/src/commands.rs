//! The decisions of the `new`, `export` and `build` commands: names of outputs and refusals.
use vstd::prelude::*;
use crate::chars::{chars_of, string_of};
use crate::text::{append_chars, decimal_text, decimal_chars};
use crate::watch_filter::ascii_lowercase;

verus! {

/// The refusal of `new` when the project directory already exists.
pub open spec fn exists_message(name: Seq<char>) -> Seq<char> {
    "Directory already exists: "@ + name
}

/// Whether `new NAME` may create its project: not when a directory of that name already exists.
pub fn check_new_project(name: &str, already_exists: bool) -> (r: Result<(), String>)
    ensures
        already_exists ==> (r matches Err(m) && m@ == exists_message(name@)),
        !already_exists ==> r is Ok,
{
    if already_exists {
        let mut m = chars_of("Directory already exists: ");
        append_chars(&mut m, &chars_of(name));
        Err(string_of(&m))
    } else {
        Ok(())
    }
}

/// What `str::to_lowercase` makes of `s`.
pub uninterp spec fn lowercase_text(s: Seq<char>) -> Seq<char>;

/// Calls `str::to_lowercase`. Claimed: the result is a function of the text alone, and ASCII text is
/// lower-cased letter by letter. How other characters are mapped (Unicode tables) is left unsaid.
#[verifier::external_body]
pub(crate) fn to_lowercase(s: &str) -> (r: String)
    ensures
        r@ == lowercase_text(s@),
        (forall|i: int| 0 <= i < s@.len() ==> (s@[i] as u32) < 0x80) ==> r@ == ascii_lowercase(s@),
{
    s.to_lowercase()
}

/// Every character of `s` is ASCII.
pub open spec fn is_ascii_text(s: Seq<char>) -> bool {
    forall|i: int| 0 <= i < s.len() ==> (s[i] as u32) < 0x80
}

/// `s` lower-cased as `str::to_lowercase` does it: letter by letter when the text is ASCII; beyond ASCII, by
/// the Unicode tables.
pub open spec fn lower_text(s: Seq<char>) -> Seq<char> {
    if is_ascii_text(s) {
        ascii_lowercase(s)
    } else {
        lowercase_text(s)
    }
}

/// Where `export` writes: one PDF file, or a directory of SVG pages.
#[derive(Clone, Debug)]
pub enum ExportPlan {
    Pdf { output: String },
    Svg { dir: String },
}

/// The refusal of an export format other than `pdf` and `svg` (given lower-cased).
pub open spec fn unsupported_format_message(f: Seq<char>) -> Seq<char> {
    "Unsupported export format: "@ + f + ". Supported formats: pdf, svg"@
}

/// Plans an export of the presentation whose file stem is `stem`: format names are compared lower-cased; a
/// PDF goes to `output` or `STEM.pdf`, SVG pages to the directory `output` or `STEM-svgs`.
pub fn export_plan(stem: &str, format: &str, output: Option<String>) -> (r: Result<ExportPlan, String>)
    ensures
        ({
            let f = lower_text(format@);
            &&& f == "pdf"@ ==> (r matches Ok(ExportPlan::Pdf { output: o }) && o@ == match output {
                Some(p) => p@,
                None => stem@ + ".pdf"@,
            })
            &&& f != "pdf"@ && f == "svg"@ ==> (r matches Ok(ExportPlan::Svg { dir: d }) && d@ == match output {
                Some(p) => p@,
                None => stem@ + "-svgs"@,
            })
            &&& f != "pdf"@ && f != "svg"@ ==> (r matches Err(m) && m@ == unsupported_format_message(f))
        }),
{
    let f = to_lowercase(format);
    let fv = chars_of(f.as_str());
    let pdf = chars_of("pdf");
    let svg = chars_of("svg");
    if same_chars(&fv, &pdf) {
        let o = match output {
            Some(p) => p,
            None => {
                let mut n = chars_of(stem);
                append_chars(&mut n, &chars_of(".pdf"));
                string_of(&n)
            },
        };
        Ok(ExportPlan::Pdf { output: o })
    } else if same_chars(&fv, &svg) {
        let d = match output {
            Some(p) => p,
            None => {
                let mut n = chars_of(stem);
                append_chars(&mut n, &chars_of("-svgs"));
                string_of(&n)
            },
        };
        Ok(ExportPlan::Svg { dir: d })
    } else {
        let mut m = chars_of("Unsupported export format: ");
        append_chars(&mut m, &fv);
        append_chars(&mut m, &chars_of(". Supported formats: pdf, svg"));
        Err(string_of(&m))
    }
}

/// `a` and `b` hold the same characters.
fn same_chars(a: &Vec<char>, b: &Vec<char>) -> (r: bool)
    ensures
        r == (a@ == b@),
{
    if a.len() != b.len() {
        return false;
    }
    let mut i: usize = 0;
    let mut same = true;
    while i < a.len() && same
        invariant
            a@.len() == b@.len(),
            i <= a@.len(),
            same == (forall|j: int| 0 <= j < i ==> a@[j] == b@[j]),
        decreases a.len() - i,
    {
        if a[i] != b[i] {
            same = false;
        }
        i += 1;
    }
    proof {
        if same {
            assert(a@ =~= b@);
        } else {
            let j = choose|j: int| 0 <= j < i && a@[j] != b@[j];
            assert(a@[j] != b@[j]);
        }
    }
    same
}

/// The file an exported SVG page is written to: `page-N.svg`.
pub fn svg_page_file(page_number: usize) -> (r: String)
    ensures
        r@ == "page-"@ + decimal_text(page_number as nat) + ".svg"@,
{
    let mut n = chars_of("page-");
    append_chars(&mut n, &decimal_chars(page_number));
    append_chars(&mut n, &chars_of(".svg"));
    string_of(&n)
}

/// The default name of a standalone presentation executable: `STEM-presentation`, with `.exe` on Windows.
pub fn standalone_binary_name(stem: &str, on_windows: bool) -> (r: String)
    ensures
        r@ == stem@ + "-presentation"@ + if on_windows { ".exe"@ } else { Seq::empty() },
{
    let mut n = chars_of(stem);
    append_chars(&mut n, &chars_of("-presentation"));
    if on_windows {
        append_chars(&mut n, &chars_of(".exe"));
    } else {
        assert(n@ + Seq::<char>::empty() =~= n@);
    }
    string_of(&n)
}

} // verus!
