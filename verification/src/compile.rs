//! The Typst compiler handle, the slides a presentation source declares, and page-overflow detection.
use vstd::prelude::*;
use crate::chars::{chars_of, string_of};
use crate::watch_filter::{ascii_lowercase, to_ascii_lower};
use crate::text::{split_once_at, split_once_chars, replaced, replace_chars, has_suffix, has_infix, contains_chars};
use crate::text::{
    has_prefix, after, trimmed, trim_chars, find_first, find_chars, decimal_text, decimal_chars, concat_chars,
    starts_with_chars, chars_after, is_first_occurrence, occurs_at, append_chars,
};

verus! {

/// Errors of the presentation tool chain.
#[derive(Clone, Debug, PartialEq, Eq)]
pub enum SlideError {
    /// Typst could not be found or failed to compile the document.
    Compilation(String),
    /// The compiled document has more pages than the source declares slides.
    Overflow(String),
    /// A file or value was not in the expected form.
    Format(String),
    /// Reading or writing a file failed.
    Io(String),
}

/// A handle on the Typst executable.
#[derive(Clone, Debug)]
pub struct SlideCompiler {
    pub typst_path: String,
}

impl SlideCompiler {
    /// A compiler for the Typst executable found on this system (`located`), or the error that none was found.
    pub fn new(located: Option<String>) -> (r: Result<SlideCompiler, SlideError>)
        ensures
            match located {
                Some(p) => r matches Ok(c) && c.typst_path@ == p@,
                None => r matches Err(SlideError::Compilation(_)),
            },
    {
        match located {
            Some(p) => Ok(SlideCompiler { typst_path: p }),
            None => Err(
                SlideError::Compilation(
                    "Typst executable not found. Please install Typst or ensure it is on your PATH, or set the TYPST_PATH environment variable.".to_string(),
                ),
            ),
        }
    }

    /// A compiler for the Typst executable at `path`.
    pub fn with_path(path: String) -> (r: SlideCompiler)
        ensures
            r.typst_path@ == path@,
    {
        SlideCompiler { typst_path: path }
    }
}

/// A slide that the presentation source declares: the (1-based) line of its declaration and its title.
#[derive(Clone, Debug)]
pub struct DeclaredSlide {
    pub line_number: usize,
    pub title: String,
}

/// The lines of `s` as `str::lines` gives them: split after each `\n`, with the `\n` (and a `\r` before it)
/// removed; a final line ending adds no empty line.
pub open spec fn lines_of(s: Seq<char>) -> Seq<Seq<char>>
    decreases s.len(),
{
    if s.len() == 0 {
        Seq::empty()
    } else {
        match find_first(s, seq!['\n']) {
            None => seq![s],
            Some(i) => {
                let line = s.take(i);
                let line2 = if line.len() > 0 && line.last() == '\r' { line.drop_last() } else { line };
                if 0 <= i < s.len() {
                    seq![line2] + lines_of(after(s, i + 1))
                } else {
                    seq![line2]
                }
            },
        }
    }
}

/// The text between the first two `"` after the first `key` in a line.
pub open spec fn quoted_value(l: Seq<char>, key: Seq<char>) -> Option<Seq<char>> {
    match find_first(l, key) {
        None => None,
        Some(t) => {
            let rest = after(l, t + key.len());
            match find_first(rest, seq!['"']) {
                None => None,
                Some(q1) => match find_first(after(rest, q1 + 1), seq!['"']) {
                    None => None,
                    Some(q2) => Some(rest.subrange(q1 + 1, q1 + 1 + q2)),
                },
            }
        },
    }
}

/// The text between the first two `"` after the first `title:` of a line.
pub open spec fn quoted_title(l: Seq<char>) -> Option<Seq<char>> {
    quoted_value(l, "title:"@)
}

/// The first quoted title among lines `i..end`.
pub open spec fn title_in(lines: Seq<Seq<char>>, i: int, end: int) -> Option<Seq<char>>
    decreases end - i,
{
    if i >= end || i >= lines.len() || i < 0 {
        None
    } else {
        match quoted_title(lines[i]) {
            Some(t) => Some(t),
            None => title_in(lines, i + 1, end),
        }
    }
}

/// The title of a slide declared at line `i`: the first quoted title within its first ten lines, else `default`.
pub open spec fn slide_title(lines: Seq<Seq<char>>, i: int, default: Seq<char>) -> Seq<char> {
    match title_in(lines, i, i + 10) {
        Some(t) => t,
        None => default,
    }
}

/// A trimmed line that declares a title slide.
pub open spec fn declares_title_slide(t: Seq<char>) -> bool {
    has_prefix(t, "#title-slide"@) && !has_prefix(t, "#let title-slide"@)
}

/// A trimmed line that declares a content slide.
pub open spec fn declares_slide(t: Seq<char>) -> bool {
    has_prefix(t, "#slide"@) && !has_prefix(t, "#let slide"@)
}

/// The slides declared from line `i` on, `count` having been declared before it: each is its 1-based line
/// number and title. Comment lines are skipped; an untitled title slide is called "Title Slide" and an
/// untitled slide "Slide N" for its position N.
pub open spec fn declared_from(lines: Seq<Seq<char>>, i: int, count: int) -> Seq<(int, Seq<char>)>
    decreases lines.len() - i,
{
    if i >= lines.len() || i < 0 {
        Seq::empty()
    } else {
        let t = trimmed(lines[i]);
        if has_prefix(t, "//"@) {
            declared_from(lines, i + 1, count)
        } else if declares_title_slide(t) {
            seq![(i + 1, slide_title(lines, i, "Title Slide"@))] + declared_from(lines, i + 1, count + 1)
        } else if declares_slide(t) {
            seq![(i + 1, slide_title(lines, i, "Slide "@ + decimal_text((count + 1) as nat)))] + declared_from(
                lines,
                i + 1,
                count + 1,
            )
        } else {
            declared_from(lines, i + 1, count)
        }
    }
}

/// The slides that the presentation source `content` declares.
pub open spec fn declared_slides_spec(content: Seq<char>) -> Seq<(int, Seq<char>)> {
    declared_from(lines_of(content), 0, 0)
}

/// Splits `content` into lines as `str::lines` does.
pub fn split_lines(content: &Vec<char>) -> (r: Vec<Vec<char>>)
    ensures
        r@.len() == lines_of(content@).len(),
        forall|k: int| 0 <= k < r@.len() ==> #[trigger] r@[k]@ == lines_of(content@)[k],
{
    let mut out: Vec<Vec<char>> = Vec::new();
    let mut rest = chars_after(content, 0);
    proof {
        assert(after(content@, 0) =~= content@);
        assert(lines_of(content@) =~= out@.map_values(|v: Vec<char>| v@) + lines_of(rest@));
    }
    while rest.len() > 0
        invariant
            lines_of(content@) == out@.map_values(|v: Vec<char>| v@) + lines_of(rest@),
        decreases rest@.len(),
    {
        let nl = vec!['\n'];
        assert(nl@ =~= seq!['\n']);
        let ghost before = out@.map_values(|v: Vec<char>| v@);
        match find_chars(&rest, &nl) {
            None => {
                proof {
                    assert(lines_of(rest@) =~= seq![rest@]);
                }
                let line = chars_after(&rest, 0);
                proof {
                    assert(after(rest@, 0) =~= rest@);
                }
                out.push(line);
                proof {
                    assert(out@.map_values(|v: Vec<char>| v@) =~= before + seq![rest@]);
                    assert(before + seq![rest@] + lines_of(Seq::<char>::empty()) =~= before + lines_of(rest@));
                }
                rest = Vec::new();
            },
            Some(i) => {
                proof {
                    assert(occurs_at(rest@, seq!['\n'], i as int));
                }
                let mut line: Vec<char> = Vec::new();
                let mut k: usize = 0;
                while k < i
                    invariant
                        k <= i < rest@.len(),
                        line@ == rest@.take(k as int),
                    decreases i - k,
                {
                    line.push(rest[k]);
                    k += 1;
                    proof {
                        assert(line@ =~= rest@.take(k as int));
                    }
                }
                if line.len() > 0 && line[line.len() - 1] == '\r' {
                    line.pop();
                }
                let next = chars_after(&rest, i + 1);
                let ghost old_rest = rest@;
                out.push(line);
                proof {
                    assert(out@.map_values(|v: Vec<char>| v@) =~= before + seq![line@]);
                    assert(lines_of(old_rest) == seq![line@] + lines_of(next@));
                    assert(before + (seq![line@] + lines_of(next@)) =~= before + seq![line@] + lines_of(next@));
                }
                rest = next;
            },
        }
    }
    proof {
        assert(lines_of(rest@) =~= Seq::<Seq<char>>::empty());
        assert(out@.map_values(|v: Vec<char>| v@) + Seq::<Seq<char>>::empty() =~= out@.map_values(
            |v: Vec<char>| v@,
        ));
    }
    out
}

/// The text between the first two `"` after the first `key` in the line `l`.
pub fn quoted_value_of(l: &Vec<char>, key: &Vec<char>) -> (r: Option<Vec<char>>)
    ensures
        match r {
            Some(t) => quoted_value(l@, key@) == Some(t@),
            None => quoted_value(l@, key@) is None,
        },
{
    let ln = l.len();
    let quote = vec!['"'];
    assert(quote@ =~= seq!['"']);
    match find_chars(l, key) {
        None => None,
        Some(t) => {
            proof {
                assert(occurs_at(l@, key@, t as int));
            }
            let rest = chars_after(l, t + key.len());
            let rn = rest.len();
            match find_chars(&rest, &quote) {
                None => None,
                Some(q1) => {
                    proof {
                        assert(occurs_at(rest@, quote@, q1 as int));
                    }
                    let tail = chars_after(&rest, q1 + 1);
                    let tn = tail.len();
                    match find_chars(&tail, &quote) {
                        None => None,
                        Some(q2) => {
                            proof {
                                assert(occurs_at(tail@, quote@, q2 as int));
                            }
                            let stop = q1 + 1 + q2;
                            let mut value: Vec<char> = Vec::new();
                            let mut k = q1 + 1;
                            while k < stop
                                invariant
                                    stop == q1 + 1 + q2,
                                    q1 + 1 <= k <= stop,
                                    stop <= rest@.len(),
                                    value@ == rest@.subrange(q1 + 1, k as int),
                                decreases stop - k,
                            {
                                value.push(rest[k]);
                                k += 1;
                                proof {
                                    assert(value@ =~= rest@.subrange(q1 + 1, k as int));
                                }
                            }
                            Some(value)
                        },
                    }
                },
            }
        },
    }
}

/// The text between the first two `"` after the first `title:` of the line `l`.
fn quoted_title_of(l: &Vec<char>) -> (r: Option<Vec<char>>)
    ensures
        match r {
            Some(t) => quoted_title(l@) == Some(t@),
            None => quoted_title(l@) is None,
        },
{
    let key = chars_of("title:");
    quoted_value_of(l, &key)
}

/// The first quoted title among the ten lines from line `i`.
fn title_near(lines: &Vec<Vec<char>>, i: usize) -> (r: Option<Vec<char>>)
    requires
        i < lines@.len(),
    ensures
        match r {
            Some(t) => title_in(lines@.map_values(|v: Vec<char>| v@), i as int, i + 10) == Some(t@),
            None => title_in(lines@.map_values(|v: Vec<char>| v@), i as int, i + 10) is None,
        },
{
    let ghost lv = lines@.map_values(|v: Vec<char>| v@);
    let end = if lines.len() - i > 10 { i + 10 } else { lines.len() };
    let mut j = i;
    while j < end
        invariant
            i <= j <= end <= lines@.len(),
            end <= i + 10,
            end == i + 10 || end == lines@.len(),
            lv == lines@.map_values(|v: Vec<char>| v@),
            title_in(lv, i as int, i + 10) == title_in(lv, j as int, i + 10),
        decreases end - j,
    {
        proof {
            assert(lv[j as int] == lines@[j as int]@);
        }
        match quoted_title_of(&lines[j]) {
            Some(t) => {
                return Some(t);
            },
            None => {},
        }
        j += 1;
    }
    None
}

/// The slides that the presentation source `content` declares, in order.
pub fn parse_declared_slides(content: &str) -> (r: Vec<DeclaredSlide>)
    ensures
        r@.len() == declared_slides_spec(content@).len(),
        forall|k: int|
            0 <= k < r@.len() ==> (#[trigger] r@[k]).line_number == declared_slides_spec(content@)[k].0
                && r@[k].title@ == declared_slides_spec(content@)[k].1,
{
    let text = chars_of(content);
    let lines = split_lines(&text);
    let ghost lv = lines@.map_values(|v: Vec<char>| v@);
    proof {
        assert(lv =~= lines_of(content@));
    }
    let comment = chars_of("//");
    let title_decl = chars_of("#title-slide");
    let title_let = chars_of("#let title-slide");
    let slide_decl = chars_of("#slide");
    let slide_let = chars_of("#let slide");
    let mut out: Vec<DeclaredSlide> = Vec::new();
    let mut i: usize = 0;
    proof {
        assert(out@.map_values(|d: DeclaredSlide| (d.line_number as int, d.title@)) + declared_from(lv, 0, 0)
            =~= declared_from(lv, 0, 0));
    }
    while i < lines.len()
        invariant
            i <= lines@.len(),
            lv == lines@.map_values(|v: Vec<char>| v@),
            lv == lines_of(content@),
            comment@ == "//"@,
            title_decl@ == "#title-slide"@,
            title_let@ == "#let title-slide"@,
            slide_decl@ == "#slide"@,
            slide_let@ == "#let slide"@,
            out@.len() <= i,
            declared_from(lv, 0, 0) == out@.map_values(|d: DeclaredSlide| (d.line_number as int, d.title@))
                + declared_from(lv, i as int, out@.len() as int),
        decreases lines.len() - i,
    {
        let ghost before = out@.map_values(|d: DeclaredSlide| (d.line_number as int, d.title@));
        let t = trim_chars(&lines[i]);
        if starts_with_chars(&t, &comment) {
        } else if starts_with_chars(&t, &title_decl) && !starts_with_chars(&t, &title_let) {
            let title = match title_near(&lines, i) {
                Some(found) => found,
                None => chars_of("Title Slide"),
            };
            let d = DeclaredSlide { line_number: i + 1, title: string_of(&title) };
            out.push(d);
            proof {
                assert(out@.map_values(|d: DeclaredSlide| (d.line_number as int, d.title@)) =~= before.push(
                    ((i + 1) as int, title@),
                ));
                assert(before.push(((i + 1) as int, title@)) + declared_from(lv, i + 1, out@.len() as int) =~= before
                    + (seq![((i + 1) as int, title@)] + declared_from(lv, i + 1, out@.len() as int)));
            }
        } else if starts_with_chars(&t, &slide_decl) && !starts_with_chars(&t, &slide_let) {
            let n = out.len() + 1;
            let title = match title_near(&lines, i) {
                Some(found) => found,
                None => {
                    let prefix = chars_of("Slide ");
                    let digits = decimal_chars(n);
                    concat_chars(&prefix, &digits)
                },
            };
            let d = DeclaredSlide { line_number: i + 1, title: string_of(&title) };
            out.push(d);
            proof {
                assert(out@.map_values(|d: DeclaredSlide| (d.line_number as int, d.title@)) =~= before.push(
                    ((i + 1) as int, title@),
                ));
                assert(before.push(((i + 1) as int, title@)) + declared_from(lv, i + 1, out@.len() as int) =~= before
                    + (seq![((i + 1) as int, title@)] + declared_from(lv, i + 1, out@.len() as int)));
            }
        }
        i += 1;
    }
    proof {
        assert(declared_from(lv, i as int, out@.len() as int) =~= Seq::<(int, Seq<char>)>::empty());
        let m = out@.map_values(|d: DeclaredSlide| (d.line_number as int, d.title@));
        assert(m + Seq::<(int, Seq<char>)>::empty() =~= m);
        assert forall|k: int| 0 <= k < out@.len() implies (#[trigger] out@[k]).line_number
            == declared_slides_spec(content@)[k].0 && out@[k].title@ == declared_slides_spec(content@)[k].1 by {
            assert(m[k] == (out@[k].line_number as int, out@[k].title@));
        }
    }
    out
}

/// Where a compiled document spilled over: the declared and compiled counts, the (1-based) number of the slide
/// that overflowed, the title and line of the declared slide reported for it, and the first spillover page.
#[derive(Clone, Debug)]
pub struct OverflowReport {
    pub declared_count: usize,
    pub compiled_count: usize,
    pub extra_pages: usize,
    pub problem_slide: usize,
    pub problem_title: String,
    pub problem_line: usize,
    pub spillover_page: usize,
}

/// `p` is the first page without a slide marker.
pub open spec fn is_first_unmarked(marked: Seq<bool>, p: int) -> bool {
    0 <= p < marked.len() && !marked[p] && forall|q: int| 0 <= q < p ==> #[trigger] marked[q]
}

/// The overflowing slide's index and the first spillover page, when the document has more compiled pages
/// (`marked`, one flag per page telling whether it carries a slide marker) than declared slides. With markers,
/// the first page without one spills over from the slide before it; otherwise the last declared slide is
/// blamed and the last page reported.
pub open spec fn overflow_position(declared_count: int, marked: Seq<bool>) -> Option<(int, int)> {
    if declared_count == 0 || marked.len() <= declared_count {
        None
    } else if (exists|q: int| 0 <= q < marked.len() && #[trigger] marked[q]) && (exists|p: int|
        #[trigger] is_first_unmarked(marked, p)) {
        let p = choose|p: int| #[trigger] is_first_unmarked(marked, p);
        Some((if p > 0 { p - 1 } else { 0 }, p + 1))
    } else {
        Some((declared_count - 1, marked.len() as int))
    }
}

/// A compiled page carries a slide marker when its SVG contains `slide-meta:`.
pub fn has_slide_marker(svg: &str) -> (r: bool)
    ensures
        r == has_infix(svg@, "slide-meta:"@),
{
    contains_chars(&chars_of(svg), &chars_of("slide-meta:"))
}

/// The overflow check is waived when `CARGO_SLIDE_ALLOW_OVERFLOW` holds `1` or `true` in any ASCII case.
pub open spec fn overflow_waived(value: Option<Seq<char>>) -> bool {
    match value {
        Some(v) => v == "1"@ || ascii_lowercase(v) == "true"@,
        None => false,
    }
}

/// Reads the value of `CARGO_SLIDE_ALLOW_OVERFLOW` (none when unset).
pub fn overflow_override(value: Option<&str>) -> (r: bool)
    ensures
        r == overflow_waived(match value { Some(v) => Some(v@), None => None }),
{
    match value {
        Some(v) => {
            let c = chars_of(v);
            let one = chars_of("1");
            let t = chars_of("true");
            let l = to_ascii_lower(&c);
            same_text(&c, &one) || same_text(&l, &t)
        },
        None => false,
    }
}

/// `a` and `b` hold the same characters.
fn same_text(a: &Vec<char>, b: &Vec<char>) -> (r: bool)
    ensures
        r == (a@ == b@),
{
    if a.len() != b.len() {
        return false;
    }
    let mut i: usize = 0;
    while i < a.len()
        invariant
            a@.len() == b@.len(),
            i <= a@.len(),
            forall|j: int| 0 <= j < i ==> a@[j] == b@[j],
        decreases a.len() - i,
    {
        if a[i] != b[i] {
            return false;
        }
        i += 1;
    }
    proof {
        assert(a@ =~= b@);
    }
    true
}

/// Compares the declared slides with the compiled pages (`page_marked[i]`: page `i + 1` carries a slide marker)
/// and reports the overflow, if any.
pub fn detect_overflow(declared: &Vec<DeclaredSlide>, page_marked: &Vec<bool>) -> (r: Option<OverflowReport>)
    ensures
        match overflow_position(declared@.len() as int, page_marked@) {
            None => r is None,
            Some((problem, spill)) => r matches Some(rep) && rep.declared_count == declared@.len()
                && rep.compiled_count == page_marked@.len() && rep.extra_pages == page_marked@.len()
                - declared@.len() && rep.problem_slide == problem + 1 && rep.spillover_page == spill && ({
                let k = if problem < declared@.len() { problem } else { declared@.len() - 1 };
                rep.problem_title@ == declared@[k].title@ && rep.problem_line == declared@[k].line_number
            }),
        },
{
    let dc = declared.len();
    let cc = page_marked.len();
    if dc == 0 || cc <= dc {
        return None;
    }
    let mut any_marked = false;
    let mut q: usize = 0;
    while q < cc
        invariant
            cc == page_marked@.len(),
            q <= cc,
            any_marked == exists|j: int| 0 <= j < q && #[trigger] page_marked@[j],
        decreases cc - q,
    {
        if page_marked[q] {
            any_marked = true;
        }
        q += 1;
    }
    let mut problem: usize = dc - 1;
    let mut spill: usize = cc;
    if any_marked {
        let mut p: usize = 0;
        let mut found = false;
        while p < cc && !found
            invariant
                cc == page_marked@.len(),
                p <= cc,
                dc == declared@.len(),
                !found ==> forall|j: int| 0 <= j < p ==> #[trigger] page_marked@[j],
                !found ==> problem == dc - 1 && spill == cc,
                found ==> p >= 1 && is_first_unmarked(page_marked@, p - 1) && problem == (if p - 1 > 0 {
                    p - 2
                } else {
                    0
                }) && spill == p,
            decreases cc - p,
        {
            if !page_marked[p] {
                problem = if p > 0 { p - 1 } else { 0 };
                spill = p + 1;
                found = true;
            }
            p += 1;
        }
        proof {
            if found {
                let f = (p - 1) as int;
                assert(is_first_unmarked(page_marked@, f));
                let c = choose|x: int| #[trigger] is_first_unmarked(page_marked@, x);
                assert(is_first_unmarked(page_marked@, c));
                if c < f {
                    assert(page_marked@[c]);
                } else if f < c {
                    assert(page_marked@[f]);
                }
            } else {
                assert forall|x: int| !#[trigger] is_first_unmarked(page_marked@, x) by {
                    if is_first_unmarked(page_marked@, x) {
                        assert(page_marked@[x]);
                    }
                }
            }
        }
    }
    let k = if problem < dc { problem } else { dc - 1 };
    let slide = &declared[k];
    Some(
        OverflowReport {
            declared_count: dc,
            compiled_count: cc,
            extra_pages: cc - dc,
            problem_slide: problem + 1,
            problem_title: slide.title.clone(),
            problem_line: slide.line_number,
            spillover_page: spill,
        },
    )
}

/// The error message for an overflow: the counts, the slide that overflowed (number, title, line), the first
/// spillover page, and what to do about it.
pub open spec fn overflow_message_spec(r: OverflowReport) -> Seq<char> {
    "Typst slide content overflow detected!\nThe presentation source declares "@ + decimal_text(r.declared_count as nat) + " slide(s), but Typst compiled "@ + decimal_text(r.compiled_count as nat)
        + " pages ("@ + decimal_text(r.extra_pages as nat)
        + " extra spillover page(s)).\n\nOverflow location:\n  Slide "@ + decimal_text(r.problem_slide as nat) + " (\""@ + r.problem_title@ + "\", line "@
        + decimal_text(r.problem_line as nat)
        + ") exceeded the vertical 16:9 canvas bounds.\n  Spillover content pushed onto compiled page "@
        + decimal_text(r.spillover_page as nat)
        + ".\n\nRemediation suggestions:\n  1. Reduce component heights (e.g. adjust chart height or image dimensions).\n  2. Reduce vertical spacing (e.g. change #v(...) to a smaller distance) or font size.\n  3. Split the content into an additional slide using #slide(title: \"...\").\n\n(To bypass this error, set CARGO_SLIDE_ALLOW_OVERFLOW=1 in your environment)"@
}

/// Writes the error message for an overflow.
pub fn overflow_message(r: &OverflowReport) -> (m: String)
    ensures
        m@ == overflow_message_spec(*r),
{
    let mut out = chars_of("Typst slide content overflow detected!\nThe presentation source declares ");
    append_chars(&mut out, &decimal_chars(r.declared_count));
    append_chars(&mut out, &chars_of(" slide(s), but Typst compiled "));
    append_chars(&mut out, &decimal_chars(r.compiled_count));
    append_chars(&mut out, &chars_of(" pages ("));
    append_chars(&mut out, &decimal_chars(r.extra_pages));
    append_chars(&mut out, &chars_of(" extra spillover page(s)).\n\nOverflow location:\n  Slide "));
    append_chars(&mut out, &decimal_chars(r.problem_slide));
    append_chars(&mut out, &chars_of(" (\""));
    append_chars(&mut out, &chars_of(r.problem_title.as_str()));
    append_chars(&mut out, &chars_of("\", line "));
    append_chars(&mut out, &decimal_chars(r.problem_line));
    append_chars(&mut out, &chars_of(") exceeded the vertical 16:9 canvas bounds.\n  Spillover content pushed onto compiled page "));
    append_chars(&mut out, &decimal_chars(r.spillover_page));
    append_chars(&mut out, &chars_of(".\n\nRemediation suggestions:\n  1. Reduce component heights (e.g. adjust chart height or image dimensions).\n  2. Reduce vertical spacing (e.g. change #v(...) to a smaller distance) or font size.\n  3. Split the content into an additional slide using #slide(title: \"...\").\n\n(To bypass this error, set CARGO_SLIDE_ALLOW_OVERFLOW=1 in your environment)"));
    string_of(&out)
}

/// A chart data source named in the presentation source: its path and, for databases, its query.
#[derive(Clone, Debug)]
pub struct ChartSource {
    pub path: String,
    pub query: Option<String>,
}

/// A query parameter without a leading `query=`.
pub open spec fn without_query_key(q: Seq<char>) -> Seq<char> {
    if has_prefix(q, "query="@) { after(q, 6) } else { q }
}

/// The chart source a line names: the quoted value after `source:` (in the trimmed line), split at its first
/// `?` into the path and the query (without `query=`, `+` read as a space).
pub open spec fn line_source(l: Seq<char>) -> Option<(Seq<char>, Option<Seq<char>>)> {
    match quoted_value(trimmed(l), "source:"@) {
        None => None,
        Some(v) => Some(
            match split_once_at(v, '?') {
                Some((p, q)) => (p, Some(replaced(without_query_key(q), seq!['+'], seq![' ']))),
                None => (v, None),
            },
        ),
    }
}

/// The chart sources that the lines `ls` name, in order.
pub open spec fn sources_in(ls: Seq<Seq<char>>) -> Seq<(Seq<char>, Option<Seq<char>>)>
    decreases ls.len(),
{
    if ls.len() == 0 {
        Seq::empty()
    } else {
        let earlier = sources_in(ls.drop_last());
        match line_source(ls.last()) {
            Some(src) => earlier.push(src),
            None => earlier,
        }
    }
}

/// The view of a chart source.
pub open spec fn source_view(c: ChartSource) -> (Seq<char>, Option<Seq<char>>) {
    (c.path@, match c.query { Some(q) => Some(q@), None => None })
}

/// The chart data sources that the presentation source `content` names, one per line at most.
pub fn chart_sources(content: &str) -> (r: Vec<ChartSource>)
    ensures
        r@.map_values(|c: ChartSource| source_view(c)) == sources_in(lines_of(content@)),
{
    let text = chars_of(content);
    let lines = split_lines(&text);
    let ghost lv = lines@.map_values(|v: Vec<char>| v@);
    proof {
        assert(lv =~= lines_of(content@));
    }
    let key = chars_of("source:");
    let query_key = chars_of("query=");
    proof {
        reveal_strlit("query=");
    }
    let plus = vec!['+'];
    let space = vec![' '];
    assert(plus@ =~= seq!['+']);
    assert(space@ =~= seq![' ']);
    let mut out: Vec<ChartSource> = Vec::new();
    let mut i: usize = 0;
    while i < lines.len()
        invariant
            i <= lines@.len(),
            lv == lines@.map_values(|v: Vec<char>| v@),
            lv == lines_of(content@),
            key@ == "source:"@,
            query_key@ == "query="@,
            query_key@.len() == 6,
            plus@ == seq!['+'],
            space@ == seq![' '],
            out@.map_values(|c: ChartSource| source_view(c)) == sources_in(lv.take(i as int)),
        decreases lines.len() - i,
    {
        proof {
            assert(lv.take(i + 1).drop_last() =~= lv.take(i as int));
            assert(lv.take(i + 1).last() == lines@[i as int]@);
        }
        let ghost before = out@.map_values(|c: ChartSource| source_view(c));
        let t = trim_chars(&lines[i]);
        match quoted_value_of(&t, &key) {
            None => {},
            Some(v) => {
                let src = match split_once_chars(&v, '?') {
                    Some((p, q)) => {
                        let stripped = if starts_with_chars(&q, &query_key) {
                            chars_after(&q, 6)
                        } else {
                            chars_after(&q, 0)
                        };
                        proof {
                            assert(after(q@, 0) =~= q@);
                        }
                        let spaced = replace_chars(&stripped, &plus, &space);
                        ChartSource { path: string_of(&p), query: Some(string_of(&spaced)) }
                    },
                    None => ChartSource { path: string_of(&v), query: None },
                };
                out.push(src);
                proof {
                    assert(out@.map_values(|c: ChartSource| source_view(c)) =~= before.push(source_view(src)));
                }
            },
        }
        i += 1;
    }
    proof {
        assert(lv.take(i as int) =~= lv);
    }
    out
}

/// The kind of file a chart's data comes from, by extension.
#[derive(Clone, Copy, Debug, PartialEq, Eq, Structural)]
pub enum DataFormat {
    /// `.db` or `.sqlite`
    Sqlite,
    /// `.json` or `.jsonl`
    Json,
    /// `.csv`
    Csv,
}

/// The data format a source path names by its ending; none for other files.
pub open spec fn data_format_spec(p: Seq<char>) -> Option<DataFormat> {
    if has_suffix(p, ".db"@) || has_suffix(p, ".sqlite"@) {
        Some(DataFormat::Sqlite)
    } else if has_suffix(p, ".json"@) || has_suffix(p, ".jsonl"@) {
        Some(DataFormat::Json)
    } else if has_suffix(p, ".csv"@) {
        Some(DataFormat::Csv)
    } else {
        None
    }
}

/// `v` ends with the text `lit`.
fn ends_with_text(v: &Vec<char>, lit: &str) -> (r: bool)
    ensures
        r == has_suffix(v@, lit@),
{
    let l = chars_of(lit);
    if l.len() > v.len() {
        return false;
    }
    let start = v.len() - l.len();
    let tail = chars_after(v, start);
    if tail.len() != l.len() {
        return false;
    }
    let r = starts_with_chars(&tail, &l);
    proof {
        assert(tail@ =~= tail@.subrange(0, l@.len() as int));
    }
    r
}

/// The data format of a chart source path.
pub fn data_format(path: &str) -> (r: Option<DataFormat>)
    ensures
        r == data_format_spec(path@),
{
    let v = chars_of(path);
    if ends_with_text(&v, ".db") || ends_with_text(&v, ".sqlite") {
        Some(DataFormat::Sqlite)
    } else if ends_with_text(&v, ".json") || ends_with_text(&v, ".jsonl") {
        Some(DataFormat::Json)
    } else if ends_with_text(&v, ".csv") {
        Some(DataFormat::Csv)
    } else {
        None
    }
}

} // verus!
