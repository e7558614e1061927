//! Which changed files should trigger a presentation reload.
use vstd::prelude::*;
use crate::chars::chars_of;
use crate::text::{has_prefix, has_suffix, has_infix, starts_with_chars, contains_chars};
use crate::compile::data_format_spec;

verus! {

/// `c` lower-cased if it is an ASCII capital letter.
pub open spec fn ascii_lower(c: char) -> char {
    if 'A' <= c <= 'Z' { ((c as u8) + 32) as char } else { c }
}

/// `s` with its ASCII capitals lower-cased.
pub open spec fn ascii_lowercase(s: Seq<char>) -> Seq<char> {
    s.map_values(|c: char| ascii_lower(c))
}

/// A path component that hides its subtree from the watcher: dot-directories (other than `.` and `..`),
/// build output (`target`) and installed packages (`node_modules`).
pub open spec fn is_skipped_component(c: Seq<char>) -> bool {
    (has_prefix(c, "."@) && c != "."@ && c != ".."@) || c == "target"@ || c == "node_modules"@
}

/// Editor swap, backup and partial-download suffixes.
pub open spec fn has_temp_suffix(n: Seq<char>) -> bool {
    has_suffix(n, ".swp"@) || has_suffix(n, ".swo"@) || has_suffix(n, ".swn"@) || has_suffix(n, ".tmp"@)
        || has_suffix(n, ".temp"@) || has_suffix(n, ".bak"@) || has_suffix(n, ".kate-swp"@) || has_suffix(
        n,
        ".crdownload"@,
    ) || has_suffix(n, ".part"@)
}

/// File names that never trigger a reload: hidden files, compiler caches, chart exports, rendered slide SVGs
/// and editor temporary files.
pub open spec fn is_ignored_name(n: Seq<char>) -> bool {
    has_prefix(n, "."@) || has_infix(n, ".cache"@) || n == "chart_export.csv"@ || (has_prefix(n, "slide-"@)
        && has_suffix(n, ".svg"@)) || has_prefix(n, ".#"@) || has_prefix(n, "~"@) || has_suffix(n, "~"@) || (
    has_prefix(n, "#"@) && has_suffix(n, "#"@)) || has_temp_suffix(n) || has_infix(n, "___jb_tmp___"@)
        || has_infix(n, "___jb_old___"@) || n == "4913"@
}

/// Lower-case extensions of presentation sources and assets.
pub open spec fn is_asset_extension(e: Seq<char>) -> bool {
    e == "typ"@ || e == "typst"@ || e == "csv"@ || e == "tsv"@ || e == "json"@ || e == "jsonl"@ || e == "sql"@
        || e == "sqlite"@ || e == "db"@ || e == "png"@ || e == "jpg"@ || e == "jpeg"@ || e == "webp"@
        || e == "svg"@ || e == "gif"@ || e == "toml"@ || e == "yaml"@ || e == "yml"@ || e == "mp3"@
        || e == "wav"@ || e == "ogg"@ || e == "mp4"@ || e == "webm"@
}

/// Whether a changed path should trigger a reload. The path is given by its components relative to the watched
/// directory, its file name and extension (when it has them as text), whether it is the slide file itself,
/// and the slide file's name.
pub open spec fn relevant_path(
    components: Seq<Seq<char>>,
    file_name: Option<Seq<char>>,
    extension: Option<Seq<char>>,
    is_target: bool,
    target_name: Option<Seq<char>>,
) -> bool {
    &&& forall|i: int| 0 <= i < components.len() ==> !#[trigger] is_skipped_component(components[i])
    &&& match file_name {
        None => false,
        Some(n) => !is_ignored_name(n) && (is_target || target_name == Some(n) || match extension {
            Some(e) => ascii_lowercase(e) != "pdf"@ && is_asset_extension(ascii_lowercase(e)),
            None => false,
        }),
    }
}

/// An extension without a dot whose dotted form ends with the dotted form of `lit` is `lit` itself.
proof fn lemma_dotted_suffix(e: Seq<char>, lit: Seq<char>)
    requires
        forall|i: int| 0 <= i < e.len() ==> e[i] != '.',
        has_suffix(seq!['.'] + e, seq!['.'] + lit),
    ensures
        e == lit,
{
    let s = seq!['.'] + e;
    let p = seq!['.'] + lit;
    let k = s.len() - p.len();
    assert(s.subrange(k, s.len() as int)[0] == p[0]);
    if e.len() > lit.len() {
        assert(s[k] == e[k - 1]);
    }
    assert forall|i: int| 0 <= i < e.len() implies e[i] == lit[i] by {
        assert(s.subrange(k, s.len() as int)[i + 1] == p[i + 1]);
    }
    assert(e =~= lit);
}

/// Every chart data file the compiler reads is watched: a file whose extension names a data format (`db`,
/// `sqlite`, `json`, `jsonl` or `csv`) triggers a reload when it changes, unless its name is ignored or it lies
/// in a skipped directory.
pub proof fn law_chart_data_files_are_watched(components: Seq<Seq<char>>, name: Seq<char>, ext: Seq<char>)
    requires
        forall|i: int| 0 <= i < components.len() ==> !#[trigger] is_skipped_component(components[i]),
        !is_ignored_name(name),
        forall|i: int| 0 <= i < ext.len() ==> ext[i] != '.',
        data_format_spec(seq!['.'] + ext) is Some,
    ensures
        relevant_path(components, Some(name), Some(ext), false, None),
{
    reveal_strlit(".db");
    reveal_strlit(".sqlite");
    reveal_strlit(".json");
    reveal_strlit(".jsonl");
    reveal_strlit(".csv");
    reveal_strlit("db");
    reveal_strlit("sqlite");
    reveal_strlit("json");
    reveal_strlit("jsonl");
    reveal_strlit("csv");
    reveal_strlit("pdf");
    assert(".db"@ =~= seq!['.'] + "db"@);
    assert(".sqlite"@ =~= seq!['.'] + "sqlite"@);
    assert(".json"@ =~= seq!['.'] + "json"@);
    assert(".jsonl"@ =~= seq!['.'] + "jsonl"@);
    assert(".csv"@ =~= seq!['.'] + "csv"@);
    let d = seq!['.'] + ext;
    if has_suffix(d, ".db"@) {
        lemma_dotted_suffix(ext, "db"@);
    } else if has_suffix(d, ".sqlite"@) {
        lemma_dotted_suffix(ext, "sqlite"@);
    } else if has_suffix(d, ".json"@) {
        lemma_dotted_suffix(ext, "json"@);
    } else if has_suffix(d, ".jsonl"@) {
        lemma_dotted_suffix(ext, "jsonl"@);
    } else {
        lemma_dotted_suffix(ext, "csv"@);
    }
    assert("pdf"@ =~= seq!['p', 'd', 'f']);
    assert("db"@ =~= seq!['d', 'b']);
    assert("csv"@ =~= seq!['c', 's', 'v']);
    assert("json"@ =~= seq!['j', 's', 'o', 'n']);
    assert("jsonl"@ =~= seq!['j', 's', 'o', 'n', 'l']);
    assert("sqlite"@ =~= seq!['s', 'q', 'l', 'i', 't', 'e']);
    assert(ascii_lowercase(ext) =~= ext);
    assert(ext != "pdf"@);
}

/// `s` equals the text `lit`.
fn equals_literal(s: &Vec<char>, lit: &str) -> (r: bool)
    ensures
        r == (s@ == lit@),
{
    let l = chars_of(lit);
    if s.len() != l.len() {
        return false;
    }
    let r = starts_with_chars(s, &l);
    proof {
        assert(s@ =~= s@.subrange(0, l@.len() as int));
    }
    r
}

/// `s` begins with the literal `lit`.
fn starts_with_literal(s: &Vec<char>, lit: &str) -> (r: bool)
    ensures
        r == has_prefix(s@, lit@),
{
    let l = chars_of(lit);
    starts_with_chars(s, &l)
}

/// `s` contains the literal `lit`.
fn contains_literal(s: &Vec<char>, lit: &str) -> (r: bool)
    ensures
        r == has_infix(s@, lit@),
{
    let l = chars_of(lit);
    contains_chars(s, &l)
}

/// `s` ends with the literal `lit`.
fn ends_with_literal(s: &Vec<char>, lit: &str) -> (r: bool)
    ensures
        r == has_suffix(s@, lit@),
{
    let l = chars_of(lit);
    if l.len() > s.len() {
        return false;
    }
    let start = s.len() - l.len();
    let mut k: usize = 0;
    let mut same = true;
    while k < l.len() && same
        invariant
            s@.len() <= usize::MAX,
            start + l@.len() == s@.len(),
            k <= l@.len(),
            same == (forall|j: int| 0 <= j < k ==> s@[start + j] == l@[j]),
        decreases l.len() - k,
    {
        if s[start + k] != l[k] {
            same = false;
        }
        k += 1;
    }
    proof {
        if same {
            assert(s@.subrange(start as int, s@.len() as int) =~= l@);
        } else {
            let j = choose|j: int| 0 <= j < k && s@[start + j] != l@[j];
            assert(s@.subrange(start as int, s@.len() as int)[j] != l@[j]);
        }
    }
    same
}

/// `s` with its ASCII capitals lower-cased.
pub(crate) fn to_ascii_lower(s: &Vec<char>) -> (r: Vec<char>)
    ensures
        r@ == ascii_lowercase(s@),
{
    let mut r: Vec<char> = Vec::new();
    let mut i: usize = 0;
    while i < s.len()
        invariant
            i <= s@.len(),
            r@ == ascii_lowercase(s@.take(i as int)),
        decreases s.len() - i,
    {
        let c = s[i];
        let l = if 'A' <= c && c <= 'Z' { ((c as u8) + 32) as char } else { c };
        r.push(l);
        i += 1;
        proof {
            assert(r@ =~= ascii_lowercase(s@.take(i as int)));
        }
    }
    proof {
        assert(s@.take(i as int) =~= s@);
    }
    r
}

/// The component hides its subtree from the watcher.
fn skipped_component(c: &str) -> (r: bool)
    ensures
        r == is_skipped_component(c@),
{
    let v = chars_of(c);
    (starts_with_literal(&v, ".") && !equals_literal(&v, ".") && !equals_literal(&v, ".."))
        || equals_literal(&v, "target") || equals_literal(&v, "node_modules")
}

/// The file name never triggers a reload.
fn ignored_name(n: &Vec<char>) -> (r: bool)
    ensures
        r == is_ignored_name(n@),
{
    let temp = ends_with_literal(n, ".swp") || ends_with_literal(n, ".swo") || ends_with_literal(n, ".swn")
        || ends_with_literal(n, ".tmp") || ends_with_literal(n, ".temp") || ends_with_literal(n, ".bak")
        || ends_with_literal(n, ".kate-swp") || ends_with_literal(n, ".crdownload") || ends_with_literal(
        n,
        ".part",
    );
    starts_with_literal(n, ".") || contains_literal(n, ".cache") || equals_literal(n, "chart_export.csv") || (
    starts_with_literal(n, "slide-") && ends_with_literal(n, ".svg")) || starts_with_literal(n, ".#")
        || starts_with_literal(n, "~") || ends_with_literal(n, "~") || (starts_with_literal(n, "#")
        && ends_with_literal(n, "#")) || temp || contains_literal(n, "___jb_tmp___") || contains_literal(
        n,
        "___jb_old___",
    ) || equals_literal(n, "4913")
}

/// The lower-case extension belongs to a presentation source or asset.
fn asset_extension(e: &Vec<char>) -> (r: bool)
    ensures
        r == is_asset_extension(e@),
{
    equals_literal(e, "typ") || equals_literal(e, "typst") || equals_literal(e, "csv") || equals_literal(e, "tsv")
        || equals_literal(e, "json") || equals_literal(e, "jsonl") || equals_literal(e, "sql") || equals_literal(
        e,
        "sqlite",
    ) || equals_literal(e, "db") || equals_literal(e, "png") || equals_literal(e, "jpg") || equals_literal(
        e,
        "jpeg",
    ) || equals_literal(e, "webp") || equals_literal(e, "svg") || equals_literal(e, "gif") || equals_literal(
        e,
        "toml",
    ) || equals_literal(e, "yaml") || equals_literal(e, "yml") || equals_literal(e, "mp3") || equals_literal(
        e,
        "wav",
    ) || equals_literal(e, "ogg") || equals_literal(e, "mp4") || equals_literal(e, "webm")
}

/// Decides whether a changed path should trigger a reload; see `relevant_path`.
pub fn is_relevant_path(
    components: &[String],
    file_name: Option<&str>,
    extension: Option<&str>,
    is_target: bool,
    target_name: Option<&str>,
) -> (r: bool)
    ensures
        r == relevant_path(
            components@.map_values(|c: String| c@),
            match file_name { Some(n) => Some(n@), None => None },
            match extension { Some(e) => Some(e@), None => None },
            is_target,
            match target_name { Some(t) => Some(t@), None => None },
        ),
{
    let ghost comps = components@.map_values(|c: String| c@);
    let mut i: usize = 0;
    while i < components.len()
        invariant
            i <= components@.len(),
            comps == components@.map_values(|c: String| c@),
            forall|j: int| 0 <= j < i ==> !#[trigger] is_skipped_component(comps[j]),
        decreases components.len() - i,
    {
        if skipped_component(components[i].as_str()) {
            proof {
                assert(is_skipped_component(comps[i as int]));
            }
            return false;
        }
        i += 1;
    }
    let n = match file_name {
        Some(n) => chars_of(n),
        None => {
            return false;
        },
    };
    if ignored_name(&n) {
        return false;
    }
    if is_target {
        return true;
    }
    match target_name {
        Some(t) => {
            if equals_literal(&n, t) {
                return true;
            }
        },
        None => {},
    }
    match extension {
        Some(e) => {
            let ev = chars_of(e);
            let lower = to_ascii_lower(&ev);
            !equals_literal(&lower, "pdf") && asset_extension(&lower)
        },
        None => false,
    }
}

/// The kinds of file-system change the watcher is told of.
#[derive(Clone, Copy, Debug, PartialEq, Eq, Structural)]
pub enum FsChange {
    /// A file's contents changed.
    DataModified,
    /// A file was renamed.
    Renamed,
    /// A file changed in an unspecified way.
    Modified,
    Created,
    Removed,
    /// A file opened for writing was closed.
    ClosedAfterWrite,
    /// Something happened that the platform does not describe.
    Unspecified,
    /// Only times, permissions or attributes changed.
    MetadataChanged,
    /// Another kind of modification.
    OtherModification,
    /// A file was read or opened.
    Accessed,
    Other,
}

/// Changes of content, names or existence count; reads and metadata changes do not.
pub open spec fn is_content_change_spec(k: FsChange) -> bool {
    match k {
        FsChange::DataModified | FsChange::Renamed | FsChange::Modified | FsChange::Created | FsChange::Removed
        | FsChange::ClosedAfterWrite | FsChange::Unspecified => true,
        _ => false,
    }
}

/// Whether a change of kind `k` can call for a reload.
pub fn is_content_change(k: FsChange) -> (r: bool)
    ensures
        r == is_content_change_spec(k),
{
    match k {
        FsChange::DataModified | FsChange::Renamed | FsChange::Modified | FsChange::Created | FsChange::Removed
        | FsChange::ClosedAfterWrite | FsChange::Unspecified => true,
        _ => false,
    }
}

/// A changed path as the watcher sees it: its components below the watched directory, its file name and
/// extension (when they are text), and whether it is the slide file itself.
#[derive(Clone, Debug)]
pub struct ChangedPath {
    pub components: Vec<String>,
    pub file_name: Option<String>,
    pub extension: Option<String>,
    pub is_target: bool,
}

/// The view of an optional string.
pub open spec fn opt_text(o: Option<String>) -> Option<Seq<char>> {
    match o {
        Some(s) => Some(s@),
        None => None,
    }
}

/// The changed path `p` should trigger a reload of the slide file named `target_name`.
pub open spec fn changed_path_relevant(p: ChangedPath, target_name: Option<Seq<char>>) -> bool {
    relevant_path(
        p.components@.map_values(|c: String| c@),
        opt_text(p.file_name),
        opt_text(p.extension),
        p.is_target,
        target_name,
    )
}

/// An event of kind `kind` on `paths` calls for a reload: it changes content, and one of its paths is relevant.
pub fn is_relevant_event(kind: FsChange, paths: &Vec<ChangedPath>, target_name: Option<&str>) -> (r: bool)
    ensures
        r == (is_content_change_spec(kind) && exists|i: int|
            0 <= i < paths@.len() && changed_path_relevant(
                #[trigger] paths@[i],
                match target_name {
                    Some(t) => Some(t@),
                    None => None,
                },
            )),
{
    if !is_content_change(kind) {
        return false;
    }
    let ghost tn = match target_name {
        Some(t) => Some(t@),
        None => None::<Seq<char>>,
    };
    let mut i: usize = 0;
    while i < paths.len()
        invariant
            i <= paths@.len(),
            is_content_change_spec(kind),
            tn == match target_name {
                Some(t) => Some(t@),
                None => None::<Seq<char>>,
            },
            forall|j: int| 0 <= j < i ==> !changed_path_relevant(#[trigger] paths@[j], tn),
        decreases paths.len() - i,
    {
        let p = &paths[i];
        let name: Option<&str> = match &p.file_name {
            Some(n) => Some(n.as_str()),
            None => None,
        };
        let ext: Option<&str> = match &p.extension {
            Some(e) => Some(e.as_str()),
            None => None,
        };
        if is_relevant_path(p.components.as_slice(), name, ext, p.is_target, target_name) {
            assert(changed_path_relevant(paths@[i as int], tn));
            return true;
        }
        i += 1;
    }
    false
}

/// Debouncing of relevant changes: when the last one was seen (in milliseconds on a monotonic clock) and the
/// first path of the latest relevant event.
#[derive(Clone, Debug)]
pub struct ChangeDebounce {
    pub pending_since: Option<u64>,
    pub last_path: Option<String>,
}

impl ChangeDebounce {
    /// Nothing pending.
    pub fn new() -> (r: Self)
        ensures
            r.pending_since is None,
            r.last_path is None,
    {
        ChangeDebounce { pending_since: None, last_path: None }
    }

    /// Takes note of an event of kind `kind` at `now_ms`: a content change touching a relevant path restarts the
    /// settling time and remembers the event's first path (when it has one); anything else is ignored.
    pub fn record(&mut self, kind: FsChange, any_relevant: bool, first_path: Option<String>, now_ms: u64)
        ensures
            if is_content_change_spec(kind) && any_relevant {
                &&& final(self).pending_since == Some(now_ms)
                &&& final(self).last_path == match first_path {
                    Some(p) => Some(p),
                    None => old(self).last_path,
                }
            } else {
                *final(self) == *old(self)
            },
    {
        if is_content_change(kind) && any_relevant {
            self.pending_since = Some(now_ms);
            match first_path {
                Some(p) => self.last_path = Some(p),
                None => {},
            }
        }
    }

    /// At `now_ms`, once `debounce_ms` have passed since the last relevant change, reports the changed path
    /// (the target file when no path was seen) and clears the pending state; otherwise reports nothing.
    pub fn settle(&mut self, now_ms: u64, debounce_ms: u64, target: &str) -> (r: Option<String>)
        ensures
            match old(self).pending_since {
                Some(t) => if now_ms >= t + debounce_ms {
                    &&& final(self).pending_since is None
                    &&& final(self).last_path is None
                    &&& r matches Some(p) && p@ == match old(self).last_path {
                        Some(l) => l@,
                        None => target@,
                    }
                } else {
                    r is None && *final(self) == *old(self)
                },
                None => r is None && *final(self) == *old(self),
            },
    {
        match self.pending_since {
            Some(t) => {
                if now_ms >= t && now_ms - t >= debounce_ms {
                    self.pending_since = None;
                    let p = match self.last_path.take() {
                        Some(l) => l,
                        None => target.to_string(),
                    };
                    Some(p)
                } else {
                    None
                }
            },
            None => None,
        }
    }
}

} // verus!
