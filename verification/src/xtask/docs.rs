//! Rules of the requirement-document check: who may define which ids, how
//! definitions are counted, and which lines are unfinished.
use vstd::prelude::*;
use crate::config::text_form::{char_is_white_space, is_white_space, trim_end};
use crate::text::{
    concat2, contains_seq, contains_str, decimal, decimal_string, ends_with, has_prefix, has_suffix, replace_char,
    replaced, starts_with, str_eq, string_views,
};

verus! {

/// How many definitions each kind of document holds.
#[derive(Clone, Copy, Debug, PartialEq, Eq, Structural)]
pub struct Counts {
    pub modules: usize,
    pub nfr: usize,
    pub ux: usize,
}

impl Counts {
    /// All definitions together.
    pub fn total(self) -> (total: usize)
        requires
            self.modules + self.nfr + self.ux <= usize::MAX,
        ensures
            total == self.modules + self.nfr + self.ux,
    {
        self.modules + self.nfr + self.ux
    }
}

/// The kind of document that may define requirement ids.
#[derive(Clone, Copy, Debug, PartialEq, Eq, Structural)]
pub enum DefinitionOwner {
    Module,
    Nfr,
    Ux,
}

/// Whether a document of kind `owner` may define `id`.
pub open spec fn owner_owns(owner: DefinitionOwner, id: Seq<char>) -> bool {
    match owner {
        DefinitionOwner::Module => has_prefix(id, "M"@),
        DefinitionOwner::Nfr => has_prefix(id, "NFR-"@),
        DefinitionOwner::Ux => has_prefix(id, "UX-"@),
    }
}

impl DefinitionOwner {
    /// Whether this kind of document may define `id`.
    pub fn owns(self, id: &str) -> (owned: bool)
        ensures
            owned == owner_owns(self, id@),
    {
        match self {
            DefinitionOwner::Module => starts_with(id, "M"),
            DefinitionOwner::Nfr => starts_with(id, "NFR-"),
            DefinitionOwner::Ux => starts_with(id, "UX-"),
        }
    }
}

/// What `std::path::Path::strip_prefix` leaves of `path` below `root` (as
/// text), or `None` when `root` is not a prefix of it.
pub uninterp spec fn path_below(path: Seq<char>, root: Seq<char>) -> Option<Seq<char>>;

/// `path` relative to `root` (`std::path::Path::strip_prefix`).
#[verifier::external_body]
fn strip_root(path: &str, root: &str) -> (relative: Option<String>)
    ensures
        match relative {
            Some(r) => path_below(path@, root@) == Some(r@),
            None => path_below(path@, root@) is None,
        },
{
    std::path::Path::new(path).strip_prefix(root).ok().map(|p| p.to_string_lossy().into_owned())
}

/// The kind of a document by its path below the repository root (with `/`
/// separators).
pub open spec fn owner_of(normalized: Seq<char>) -> Option<DefinitionOwner> {
    if has_prefix(normalized, "docs/modules/M"@) && has_suffix(normalized, ".md"@) {
        Some(DefinitionOwner::Module)
    } else if normalized == "docs/20-nonfunctional.md"@ {
        Some(DefinitionOwner::Nfr)
    } else if normalized == "docs/21-ui-ux.md"@ {
        Some(DefinitionOwner::Ux)
    } else {
        None
    }
}

/// The kind of document at `path` in the repository at `root`, if it may
/// define requirement ids.
pub fn definition_owner(root: &str, path: &str) -> (owner: Option<DefinitionOwner>)
    ensures
        owner == match path_below(path@, root@) {
            Some(relative) => owner_of(replaced(relative, '\\', '/')),
            None => None,
        },
{
    let relative = match strip_root(path, root) {
        Some(relative) => relative,
        None => return None,
    };
    let normalized = replace_char(relative.as_str(), '\\', '/');
    let text = normalized.as_str();
    if starts_with(text, "docs/modules/M") && ends_with(text, ".md") {
        Some(DefinitionOwner::Module)
    } else if str_eq(text, "docs/20-nonfunctional.md") {
        Some(DefinitionOwner::Nfr)
    } else if str_eq(text, "docs/21-ui-ux.md") {
        Some(DefinitionOwner::Ux)
    } else {
        None
    }
}

/// `path` relative to `root` with `/` separators, or all of `path` when it
/// is not below `root`.
pub fn relative_display(root: &str, path: &str) -> (shown: String)
    ensures
        shown@ == replaced(
            match path_below(path@, root@) {
                Some(relative) => relative,
                None => path@,
            },
            '\\',
            '/',
        ),
{
    match strip_root(path, root) {
        Some(relative) => replace_char(relative.as_str(), '\\', '/'),
        None => replace_char(path, '\\', '/'),
    }
}

/// The counts of the first `n` ids: `NFR-` ids, `UX-` ids, and module ids
/// (the others that start with `M`).
pub open spec fn counted(ids: Seq<Seq<char>>, n: int) -> (int, int, int)
    decreases n,
{
    if n <= 0 {
        (0, 0, 0)
    } else {
        let (m, f, u) = counted(ids, n - 1);
        let id = ids[n - 1];
        if has_prefix(id, "NFR-"@) {
            (m, f + 1, u)
        } else if has_prefix(id, "UX-"@) {
            (m, f, u + 1)
        } else if has_prefix(id, "M"@) {
            (m + 1, f, u)
        } else {
            (m, f, u)
        }
    }
}

pub(crate) proof fn lemma_counted_bound(ids: Seq<Seq<char>>, n: int)
    requires
        0 <= n,
    ensures
        counted(ids, n).0 + counted(ids, n).1 + counted(ids, n).2 <= n,
        counted(ids, n).0 >= 0 && counted(ids, n).1 >= 0 && counted(ids, n).2 >= 0,
    decreases n,
{
    if n > 0 {
        lemma_counted_bound(ids, n - 1);
    }
}

/// Counts distinct definitions by kind.
pub fn count_definitions(ids: &Vec<String>) -> (counts: Counts)
    ensures
        (counts.modules as int, counts.nfr as int, counts.ux as int) == counted(string_views(ids@), ids@.len() as int),
{
    let ghost all = string_views(ids@);
    let mut counts = Counts { modules: 0, nfr: 0, ux: 0 };
    let mut i: usize = 0;
    while i < ids.len()
        invariant
            i <= ids@.len(),
            all == string_views(ids@),
            (counts.modules as int, counts.nfr as int, counts.ux as int) == counted(all, i as int),
        decreases ids@.len() - i,
    {
        proof { lemma_counted_bound(all, i as int); }
        assert(all[i as int] == ids@[i as int]@);
        let id = ids[i].as_str();
        if starts_with(id, "NFR-") {
            counts.nfr = counts.nfr + 1;
        } else if starts_with(id, "UX-") {
            counts.ux = counts.ux + 1;
        } else if starts_with(id, "M") {
            counts.modules = counts.modules + 1;
        }
        i += 1;
    }
    counts
}

/// The unfinished-work markers.
pub open spec fn placeholder_line(line: Seq<char>) -> bool {
    contains_seq(line, "TBD"@) || contains_seq(line, "\u{5f85}\u{8865}\u{5145}"@)
}

/// Whether a line holds an unfinished-work marker.
pub fn contains_placeholder(line: &str) -> (found: bool)
    ensures
        found == placeholder_line(line@),
{
    contains_str(line, "TBD") || contains_str(line, "\u{5f85}\u{8865}\u{5145}")
}

/// `line` without its leading white space.
pub open spec fn trim_start(line: Seq<char>) -> Seq<char>
    decreases line.len(),
{
    if line.len() > 0 && is_white_space(line[0]) {
        trim_start(line.drop_first())
    } else {
        line
    }
}

/// `line` without white space at either end (what `str::trim` gives).
pub open spec fn trimmed(line: Seq<char>) -> Seq<char> {
    trim_start(trim_end(line))
}

pub(crate) fn trim(line: &str) -> (result: String)
    ensures
        result@ == trimmed(line@),
{
    let n = line.unicode_len();
    let mut end = n;
    assert(line@.take(n as int) =~= line@);
    while end > 0 && char_is_white_space(line.get_char(end - 1))
        invariant
            n == line@.len(),
            end <= n,
            trim_end(line@) == trim_end(line@.take(end as int)),
        decreases end,
    {
        assert(line@.take(end as int).drop_last() =~= line@.take(end - 1));
        end -= 1;
    }
    let ghost kept = line@.take(end as int);
    assert(trim_end(kept) == kept);
    let mut start: usize = 0;
    assert(kept.skip(0) =~= kept);
    while start < end && char_is_white_space(line.get_char(start))
        invariant
            end <= n == line@.len(),
            kept == line@.take(end as int),
            start <= end,
            trim_start(kept) == trim_start(kept.skip(start as int)),
        decreases end - start,
    {
        assert(kept.skip(start as int).drop_first() =~= kept.skip(start + 1));
        start += 1;
    }
    assert(kept.skip(start as int) =~= line@.subrange(start as int, end as int));
    crate::text::substring(line, start, end)
}

/// The two forms of the placeholder search command the documents may show.
pub open spec fn self_check_line(line: Seq<char>) -> bool {
    let t = trimmed(line);
    t == "grep -rn \"TBD\\|\u{5f85}\u{8865}\u{5145}\" docs/ --include=\"*.md\""@
        || t == "grep -rn \"TBD\\|\u{5f85}\u{8865}\u{5145}\" docs/ --include=\"*.md\" | grep -v \"grep -rn\""@
}

/// Whether a line is exactly the documented placeholder search command,
/// which mentions the markers without being unfinished.
pub fn is_placeholder_self_check(line: &str) -> (exempt: bool)
    ensures
        exempt == self_check_line(line@),
{
    let t = trim(line);
    str_eq(t.as_str(), "grep -rn \"TBD\\|\u{5f85}\u{8865}\u{5145}\" docs/ --include=\"*.md\"")
        || str_eq(t.as_str(), "grep -rn \"TBD\\|\u{5f85}\u{8865}\u{5145}\" docs/ --include=\"*.md\" | grep -v \"grep -rn\"")
}

/// A line of a document.
#[derive(Clone, Debug)]
pub struct Location {
    pub path: String,
    pub line: usize,
}

impl Location {
    /// `path:line`.
    pub fn display(&self) -> (shown: String)
        ensures
            shown@ == self.path@ + ":"@ + decimal(self.line as nat),
    {
        let mut shown = concat2(self.path.as_str(), ":");
        shown.append(decimal_string(self.line as u64).as_str());
        shown
    }
}

} // verus!
