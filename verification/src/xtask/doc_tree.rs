//! The requirement-document check over a whole tree. Every line is scanned
//! for requirement ids and definitions; the tree passes when no line is
//! faulty, no id is defined twice, the definition counts are the approved
//! ones, every referenced id is defined and the anchor checker succeeded.
use vstd::prelude::*;
use crate::config::order::{compare_str, lemma_lex_transitive, lemma_lex_trichotomy, lex_less, Comparison};
use crate::config::text_form::lines_of;
use crate::text::{concat2, concat3, decimal, decimal_string, has_prefix, replaced, string_from_chars, string_views};
use crate::xtask::docs::{
    contains_placeholder, count_definitions, counted, definition_owner, is_placeholder_self_check,
    lemma_counted_bound, owner_of, owner_owns, path_below, placeholder_line, relative_display, self_check_line, trim,
    trimmed, Counts, DefinitionOwner, Location,
};
use crate::xtask::patterns::{group_view, regex_compiles, regex_find_all, regex_first_group, Pattern};

verus! {

// ---------------------------------------------------------------- lines

/// `line` without one final carriage return.
pub open spec fn strip_cr(line: Seq<char>) -> Seq<char> {
    if line.len() > 0 && line.last() == '\r' {
        line.drop_last()
    } else {
        line
    }
}

/// The lines of `text` as `str::lines` yields them: split at LF, the CR of
/// a CRLF dropped, and no empty line after a final line end.
pub open spec fn text_lines(text: Seq<char>) -> Seq<Seq<char>> {
    let pieces = lines_of(text);
    let body = pieces.drop_last().map_values(|l: Seq<char>| strip_cr(l));
    if pieces.last().len() == 0 {
        body
    } else {
        body.push(pieces.last())
    }
}

fn chars_to_string(chars: &Vec<char>, end: usize) -> (text: String)
    requires
        end <= chars@.len(),
    ensures
        text@ == chars@.take(end as int),
{
    let mut kept: Vec<char> = Vec::new();
    let mut i: usize = 0;
    while i < end
        invariant
            end <= chars@.len(),
            i <= end,
            kept@ == chars@.take(i as int),
        decreases end - i,
    {
        kept.push(chars[i]);
        assert(kept@ =~= chars@.take(i + 1));
        i += 1;
    }
    string_from_chars(&kept)
}

/// Splits `text` into lines as `str::lines` does.
pub fn split_text_lines(text: &str) -> (lines: Vec<String>)
    ensures
        string_views(lines@) == text_lines(text@),
{
    let n = text.unicode_len();
    let mut done: Vec<String> = Vec::new();
    let mut current: Vec<char> = Vec::new();
    let mut i: usize = 0;
    assert(text@.take(0) =~= Seq::<char>::empty());
    assert(string_views(done@) =~= lines_of(text@.take(0)).drop_last().map_values(|l: Seq<char>| strip_cr(l)));
    while i < n
        invariant
            n == text@.len(),
            i <= n,
            lines_of(text@.take(i as int)).len() >= 1,
            string_views(done@) == lines_of(text@.take(i as int)).drop_last().map_values(
                |l: Seq<char>| strip_cr(l),
            ),
            current@ == lines_of(text@.take(i as int)).last(),
        decreases n - i,
    {
        let ghost before = lines_of(text@.take(i as int));
        let c = text.get_char(i);
        assert(text@.take(i + 1).drop_last() =~= text@.take(i as int));
        assert(text@.take(i + 1).last() == c);
        if c == '\n' {
            let k = current.len();
            let end = if k > 0 && current[k - 1] == '\r' { k - 1 } else { k };
            let line = chars_to_string(&current, end);
            assert(line@ == strip_cr(current@)) by {
                if k > 0 && current@[k - 1] == '\r' {
                    assert(current@.take(end as int) =~= current@.drop_last());
                } else {
                    assert(current@.take(end as int) =~= current@);
                }
            }
            let ghost old_done = string_views(done@);
            done.push(line);
            current = Vec::new();
            let ghost after = lines_of(text@.take(i + 1));
            assert(after == before.push(Seq::empty()));
            assert(after.drop_last() =~= before);
            assert(string_views(done@) =~= old_done.push(line@));
            assert(before.map_values(|l: Seq<char>| strip_cr(l)) =~= before.drop_last().map_values(
                |l: Seq<char>| strip_cr(l),
            ).push(strip_cr(before.last())));
            assert(string_views(done@) =~= after.drop_last().map_values(|l: Seq<char>| strip_cr(l)));
        } else {
            current.push(c);
            let ghost after = lines_of(text@.take(i + 1));
            assert(after == before.update(before.len() - 1, before.last().push(c)));
            assert(after.drop_last() =~= before.drop_last());
            assert(string_views(done@) =~= after.drop_last().map_values(|l: Seq<char>| strip_cr(l)));
        }
        i += 1;
    }
    assert(text@.take(n as int) =~= text@);
    if current.len() > 0 {
        let k = current.len();
        let last = chars_to_string(&current, k);
        assert(current@.take(k as int) =~= current@);
        done.push(last);
        assert(string_views(done@) =~= text_lines(text@));
    } else {
        assert(string_views(done@) =~= text_lines(text@));
    }
    done
}

// ---------------------------------------------------------- id sequences

/// `ids` with every repetition of an earlier id left out.
pub open spec fn first_occurrences(ids: Seq<Seq<char>>) -> Seq<Seq<char>>
    decreases ids.len(),
{
    if ids.len() == 0 {
        Seq::empty()
    } else {
        let kept = first_occurrences(ids.drop_last());
        if kept.contains(ids.last()) {
            kept
        } else {
            kept.push(ids.last())
        }
    }
}

/// How many of the first `n` ids are `id`.
pub open spec fn occurrences(ids: Seq<Seq<char>>, id: Seq<char>, n: int) -> int
    decreases n,
{
    if n <= 0 {
        0
    } else {
        occurrences(ids, id, n - 1) + if ids[n - 1] == id { 1int } else { 0int }
    }
}

proof fn lemma_push_contains(s: Seq<Seq<char>>, e: Seq<char>)
    ensures
        forall|x: Seq<char>| #[trigger] s.push(e).contains(x) <==> (s.contains(x) || x == e),
{
    let t = s.push(e);
    assert forall|x: Seq<char>| t.contains(x) implies (s.contains(x) || x == e) by {
        let k = choose|k: int| 0 <= k < t.len() && t[k] == x;
        if k < s.len() {
            assert(s[k] == x);
        }
    }
    assert forall|x: Seq<char>| (s.contains(x) || x == e) implies t.contains(x) by {
        if x == e {
            assert(t[s.len() as int] == e);
        } else {
            let k = choose|k: int| 0 <= k < s.len() && s[k] == x;
            assert(t[k] == x);
        }
    }
}

proof fn lemma_insert_contains(s: Seq<Seq<char>>, p: int, e: Seq<char>)
    requires
        0 <= p <= s.len(),
    ensures
        forall|x: Seq<char>| #[trigger] s.insert(p, e).contains(x) <==> (s.contains(x) || x == e),
{
    let t = s.insert(p, e);
    assert forall|x: Seq<char>| t.contains(x) implies (s.contains(x) || x == e) by {
        let k = choose|k: int| 0 <= k < t.len() && t[k] == x;
        if k < p {
            assert(s[k] == x);
        } else if k > p {
            assert(s[k - 1] == x);
        }
    }
    assert forall|x: Seq<char>| (s.contains(x) || x == e) implies t.contains(x) by {
        if x == e {
            assert(t[p] == e);
        } else {
            let k = choose|k: int| 0 <= k < s.len() && s[k] == x;
            if k < p {
                assert(t[k] == x);
            } else {
                assert(t[k + 1] == x);
            }
        }
    }
}

/// An id is among the first occurrences exactly when it occurs at all, and
/// the first occurrences repeat nothing.
proof fn lemma_first_occurrences(ids: Seq<Seq<char>>)
    ensures
        forall|x: Seq<char>| first_occurrences(ids).contains(x) <==> ids.contains(x),
        first_occurrences(ids).no_duplicates(),
        first_occurrences(ids).len() <= ids.len(),
    decreases ids.len(),
{
    if ids.len() > 0 {
        let rest = ids.drop_last();
        lemma_first_occurrences(rest);
        lemma_push_contains(rest, ids.last());
        assert(rest.push(ids.last()) =~= ids);
        let kept = first_occurrences(rest);
        if kept.contains(ids.last()) {
            assert forall|x: Seq<char>| first_occurrences(ids).contains(x) <==> ids.contains(x) by {
                assert(rest.push(ids.last()).contains(x) <==> (rest.contains(x) || x == ids.last()));
            }
        } else {
            lemma_push_contains(kept, ids.last());
            assert forall|x: Seq<char>| first_occurrences(ids).contains(x) <==> ids.contains(x) by {
                assert(rest.push(ids.last()).contains(x) <==> (rest.contains(x) || x == ids.last()));
                assert(kept.push(ids.last()).contains(x) <==> (kept.contains(x) || x == ids.last()));
            }
        }
    }
}

proof fn lemma_occurrences_one(ids: Seq<Seq<char>>, id: Seq<char>, n: int)
    requires
        0 <= n <= ids.len(),
    ensures
        occurrences(ids, id, n) >= 0,
        occurrences(ids, id, n) >= 1 <==> exists|i: int| 0 <= i < n && ids[i] == id,
    decreases n,
{
    if n > 0 {
        lemma_occurrences_one(ids, id, n - 1);
        if ids[n - 1] == id {
            assert(0 <= n - 1 < n && ids[n - 1] == id);
        } else if occurrences(ids, id, n) >= 1 {
            let i = choose|i: int| 0 <= i < n - 1 && ids[i] == id;
            assert(0 <= i < n && ids[i] == id);
        } else {
            assert forall|i: int| 0 <= i < n implies ids[i] != id by {
                if i < n - 1 {
                    if ids[i] == id {
                        assert(exists|j: int| 0 <= j < n - 1 && ids[j] == id);
                    }
                }
            }
        }
    }
}

proof fn lemma_occurrences_two(ids: Seq<Seq<char>>, id: Seq<char>, n: int)
    requires
        0 <= n <= ids.len(),
    ensures
        occurrences(ids, id, n) >= 2 <==> exists|i: int, j: int| 0 <= i < j < n && ids[i] == id && ids[j] == id,
    decreases n,
{
    if n > 0 {
        lemma_occurrences_two(ids, id, n - 1);
        lemma_occurrences_one(ids, id, n - 1);
        if occurrences(ids, id, n) >= 2 {
            if ids[n - 1] == id {
                let i = choose|i: int| 0 <= i < n - 1 && ids[i] == id;
                assert(0 <= i < n - 1 < n && ids[i] == id && ids[n - 1] == id);
            } else {
                let (i, j) = choose|i: int, j: int| 0 <= i < j < n - 1 && ids[i] == id && ids[j] == id;
                assert(0 <= i < j < n && ids[i] == id && ids[j] == id);
            }
        } else {
            assert forall|i: int, j: int| 0 <= i < j < n && ids[i] == id implies ids[j] != id by {
                if ids[j] == id {
                    if j < n - 1 {
                        assert(exists|a: int, b: int| 0 <= a < b < n - 1 && ids[a] == id && ids[b] == id);
                    } else {
                        assert(exists|a: int| 0 <= a < n - 1 && ids[a] == id);
                    }
                }
            }
        }
    }
}

/// No id repeats exactly when every id of `keys` (which holds the same ids)
/// occurs at most once.
proof fn lemma_no_duplicates_by_keys(ids: Seq<Seq<char>>, keys: Seq<Seq<char>>)
    requires
        forall|x: Seq<char>| keys.contains(x) <==> ids.contains(x),
    ensures
        ids.no_duplicates() <==> (forall|m: int|
            0 <= m < keys.len() ==> occurrences(ids, #[trigger] keys[m], ids.len() as int) <= 1),
{
    if ids.no_duplicates() {
        assert forall|m: int| 0 <= m < keys.len() implies occurrences(ids, #[trigger] keys[m], ids.len() as int)
            <= 1 by {
            lemma_occurrences_two(ids, keys[m], ids.len() as int);
        }
    } else {
        let (i, j) = choose|i: int, j: int| 0 <= i < ids.len() && 0 <= j < ids.len() && i != j && ids[i] == ids[j];
        let x = ids[i];
        assert(ids.contains(x));
        assert(keys.contains(x));
        let m = choose|m: int| 0 <= m < keys.len() && keys[m] == x;
        lemma_occurrences_two(ids, x, ids.len() as int);
        if i < j {
            assert(0 <= i < j < ids.len() && ids[i] == x && ids[j] == x);
        } else {
            assert(0 <= j < i < ids.len() && ids[j] == x && ids[i] == x);
        }
        assert(occurrences(ids, keys[m], ids.len() as int) >= 2);
    }
}

fn contains_id(ids: &Vec<String>, id: &String) -> (found: bool)
    ensures
        found == string_views(ids@).contains(id@),
{
    let mut i: usize = 0;
    while i < ids.len()
        invariant
            i <= ids@.len(),
            forall|j: int| 0 <= j < i ==> ids@[j]@ != id@,
        decreases ids@.len() - i,
    {
        if ids[i] == *id {
            assert(string_views(ids@)[i as int] == id@);
            return true;
        }
        i += 1;
    }
    assert forall|j: int| 0 <= j < string_views(ids@).len() implies string_views(ids@)[j] != id@ by {
        assert(ids@[j]@ != id@);
    }
    false
}

/// The ids in order of first occurrence, each once.
fn distinct_ids(ids: &Vec<String>) -> (kept: Vec<String>)
    ensures
        string_views(kept@) == first_occurrences(string_views(ids@)),
{
    let ghost all = string_views(ids@);
    let mut kept: Vec<String> = Vec::new();
    let mut i: usize = 0;
    assert(all.take(0) =~= Seq::<Seq<char>>::empty());
    while i < ids.len()
        invariant
            all == string_views(ids@),
            i <= ids@.len(),
            string_views(kept@) == first_occurrences(all.take(i as int)),
        decreases ids@.len() - i,
    {
        assert(all.take(i + 1).drop_last() =~= all.take(i as int));
        assert(all.take(i + 1).last() == ids@[i as int]@);
        if !contains_id(&kept, &ids[i]) {
            kept.push(ids[i].clone());
            assert(string_views(kept@) =~= first_occurrences(all.take(i as int)).push(ids@[i as int]@));
        }
        i += 1;
    }
    assert(all.take(ids@.len() as int) =~= all);
    kept
}

/// Each id comes strictly before the next in `String` order.
pub open spec fn strictly_sorted(ids: Seq<Seq<char>>) -> bool {
    forall|i: int, j: int| 0 <= i < j < ids.len() ==> lex_less(ids[i], ids[j])
}

/// The distinct ids, in increasing `String` order, each once.
fn sorted_ids(ids: &Vec<String>) -> (sorted: Vec<String>)
    requires
        string_views(ids@).no_duplicates(),
    ensures
        forall|x: Seq<char>| string_views(sorted@).contains(x) <==> string_views(ids@).contains(x),
        sorted@.len() == ids@.len(),
        strictly_sorted(string_views(sorted@)),
{
    let ghost all = string_views(ids@);
    let mut out: Vec<String> = Vec::new();
    let mut i: usize = 0;
    assert(all.take(0) =~= Seq::<Seq<char>>::empty());
    while i < ids.len()
        invariant
            all == string_views(ids@),
            all.no_duplicates(),
            i <= ids@.len(),
            out@.len() == i,
            forall|x: Seq<char>| string_views(out@).contains(x) <==> all.take(i as int).contains(x),
            strictly_sorted(string_views(out@)),
        decreases ids@.len() - i,
    {
        let id = ids[i].clone();
        let ghost x = ids@[i as int]@;
        let ghost before = string_views(out@);
        assert(!before.contains(x)) by {
            if before.contains(x) {
                assert(all.take(i as int).contains(x));
                let k = choose|k: int| 0 <= k < i && all.take(i as int)[k] == x;
                assert(all[k] == all[i as int]);
            }
        }
        let mut p: usize = 0;
        while p < out.len() && compare_str(id.as_str(), out[p].as_str()) != Comparison::Less
            invariant
                p <= out@.len(),
                before == string_views(out@),
                id@ == x,
                !before.contains(x),
                forall|q: int| 0 <= q < p ==> lex_less(#[trigger] before[q], x),
            decreases out@.len() - p,
        {
            proof {
                lemma_lex_trichotomy(x, before[p as int]);
                assert(before[p as int] != x) by {
                    if before[p as int] == x {
                        assert(before.contains(x));
                    }
                }
            }
            p += 1;
        }
        out.insert(p, id);
        proof {
            let after = string_views(out@);
            assert(after =~= before.insert(p as int, x));
            lemma_insert_contains(before, p as int, x);
            assert(all.take(i + 1) =~= all.take(i as int).push(x));
            lemma_push_contains(all.take(i as int), x);
            assert forall|y: Seq<char>| after.contains(y) <==> all.take(i + 1).contains(y) by {
                assert(before.insert(p as int, x).contains(y) <==> (before.contains(y) || y == x));
                assert(all.take(i as int).push(x).contains(y) <==> (all.take(i as int).contains(y) || y == x));
            }
            assert forall|a: int, b: int| 0 <= a < b < after.len() implies lex_less(after[a], after[b]) by {
                if b < p {
                } else if a > p {
                    assert(after[a] == before[a - 1]);
                    assert(after[b] == before[b - 1]);
                } else if a < p && b == p {
                } else if a < p && b > p {
                    assert(after[b] == before[b - 1]);
                    if b - 1 > a {
                    }
                } else {
                    assert(a == p);
                    assert(after[b] == before[b - 1]);
                    assert(lex_less(x, before[p as int]));
                    if b - 1 > p {
                        lemma_lex_transitive(x, before[p as int], before[b - 1]);
                    }
                }
            }
        }
        i += 1;
    }
    assert(all.take(ids@.len() as int) =~= all);
    out
}

// ------------------------------------------------------------ line scans

/// What the check reads of one line of a document: where it stands, the
/// kind of the document, its text, the ids it mentions, and (in a document
/// that may define ids) the first group of the definition pattern and of
/// the looser pattern for definition-like lines.
#[derive(Debug)]
pub struct LineScan {
    pub path: String,
    pub line: usize,
    pub owner: Option<DefinitionOwner>,
    pub text: String,
    pub references: Vec<String>,
    pub definition: Option<Option<String>>,
    pub candidate: Option<Option<String>>,
}

/// A [`LineScan`] with its texts as sequences.
pub struct ScanView {
    pub path: Seq<char>,
    pub line: usize,
    pub owner: Option<DefinitionOwner>,
    pub text: Seq<char>,
    pub references: Seq<Seq<char>>,
    pub definition: Option<Option<Seq<char>>>,
    pub candidate: Option<Option<Seq<char>>>,
}

impl View for LineScan {
    type V = ScanView;

    open spec fn view(&self) -> ScanView {
        ScanView {
            path: self.path@,
            line: self.line,
            owner: self.owner,
            text: self.text@,
            references: string_views(self.references@),
            definition: group_view(self.definition),
            candidate: group_view(self.candidate),
        }
    }
}

/// The views of a sequence of scans.
pub open spec fn scan_views(scans: Seq<LineScan>) -> Seq<ScanView> {
    scans.map_values(|scan: LineScan| scan@)
}

/// A definition line that is malformed, unreadable or in a document that
/// may not define that id.
pub open spec fn definition_fault(scan: ScanView) -> bool {
    match scan.owner {
        Some(owner) => match scan.definition {
            Some(Some(id)) => !owner_owns(owner, id),
            Some(None) => true,
            None => scan.candidate is Some,
        },
        None => false,
    }
}

/// A line the check reports by itself: a faulty definition, or an
/// unfinished-work marker outside the documented search command.
pub open spec fn line_fault(scan: ScanView) -> bool {
    definition_fault(scan) || (placeholder_line(scan.text) && !self_check_line(scan.text))
}

/// The id a line defines, if it defines one in a document allowed to.
pub open spec fn line_definitions(scan: ScanView) -> Seq<Seq<char>> {
    match scan.owner {
        Some(owner) => match scan.definition {
            Some(Some(id)) => if owner_owns(owner, id) {
                seq![id]
            } else {
                Seq::empty()
            },
            _ => Seq::empty(),
        },
        None => Seq::empty(),
    }
}

/// The ids defined by the first `n` lines, in order.
pub open spec fn definitions_in(scans: Seq<ScanView>, n: int) -> Seq<Seq<char>>
    decreases n,
{
    if n <= 0 {
        Seq::empty()
    } else {
        definitions_in(scans, n - 1) + line_definitions(scans[n - 1])
    }
}

/// The ids mentioned by the first `n` lines, in order.
pub open spec fn references_in(scans: Seq<ScanView>, n: int) -> Seq<Seq<char>>
    decreases n,
{
    if n <= 0 {
        Seq::empty()
    } else {
        references_in(scans, n - 1) + scans[n - 1].references
    }
}

/// What the anchor checker gave: whether it exited successfully, and its
/// output.
#[derive(Clone, Debug)]
pub struct AnchorOutput {
    pub success: bool,
    pub stdout: String,
    pub stderr: String,
}

/// The anchor checker ran and succeeded.
pub open spec fn anchor_passed(anchor: Result<AnchorOutput, String>) -> bool {
    anchor matches Ok(output) && output.success
}

/// The tree of scanned lines satisfies every document invariant.
pub open spec fn scans_pass(scans: Seq<ScanView>, expected: Counts, anchor_ok: bool) -> bool {
    let defs = definitions_in(scans, scans.len() as int);
    let refs = references_in(scans, scans.len() as int);
    let unique = first_occurrences(defs);
    &&& forall|k: int| 0 <= k < scans.len() ==> !line_fault(#[trigger] scans[k])
    &&& defs.no_duplicates()
    &&& counted(unique, unique.len() as int) == (expected.modules as int, expected.nfr as int, expected.ux as int)
    &&& forall|k: int| 0 <= k < refs.len() ==> defs.contains(#[trigger] refs[k])
    &&& anchor_ok
}

/// Where a scanned line stands, as reports show it: `path:line`.
pub open spec fn site_text(scan: ScanView) -> Seq<char> {
    scan.path + ":"@ + decimal(scan.line as nat)
}

/// What a definition line at fault reports, if it is at fault.
pub open spec fn definition_issues(scan: ScanView) -> Seq<Seq<char>> {
    let site = site_text(scan);
    match scan.owner {
        Some(owner) => match scan.definition {
            Some(Some(id)) => if owner_owns(owner, id) {
                Seq::empty()
            } else {
                seq!["requirement definition "@ + id + " has the wrong document owner at "@ + site]
            },
            Some(None) => seq!["definition parser did not capture an ID at "@ + site],
            None => match scan.candidate {
                Some(candidate) => seq![
                    "invalid requirement definition ID "@ + match candidate {
                        Some(text) => text,
                        None => "<unreadable>"@,
                    } + " at "@ + site,
                ],
                None => Seq::empty(),
            },
        },
        None => Seq::empty(),
    }
}

/// What a line reports by itself: its definition fault, then an
/// unfinished-work marker.
pub open spec fn line_issues(scan: ScanView) -> Seq<Seq<char>> {
    definition_issues(scan) + if placeholder_line(scan.text) && !self_check_line(scan.text) {
        seq!["placeholder found at "@ + site_text(scan)]
    } else {
        Seq::empty()
    }
}

/// What the first `n` lines report by themselves, in order.
pub open spec fn line_issues_in(scans: Seq<ScanView>, n: int) -> Seq<Seq<char>>
    decreases n,
{
    if n <= 0 {
        Seq::empty()
    } else {
        line_issues_in(scans, n - 1) + line_issues(scans[n - 1])
    }
}

/// The place of each id defined by the first `n` lines, in order.
pub open spec fn definition_sites_in(scans: Seq<ScanView>, n: int) -> Seq<Seq<char>>
    decreases n,
{
    if n <= 0 {
        Seq::empty()
    } else {
        definition_sites_in(scans, n - 1) + line_definitions(scans[n - 1]).map_values(
            |id: Seq<char>| site_text(scans[n - 1]),
        )
    }
}

/// The place of each id mentioned by the first `n` lines, in order.
pub open spec fn reference_sites_in(scans: Seq<ScanView>, n: int) -> Seq<Seq<char>>
    decreases n,
{
    if n <= 0 {
        Seq::empty()
    } else {
        reference_sites_in(scans, n - 1) + scans[n - 1].references.map_values(
            |id: Seq<char>| site_text(scans[n - 1]),
        )
    }
}

struct Gathered {
    issues: Vec<String>,
    definitions: Vec<String>,
    definition_sites: Vec<String>,
    references: Vec<String>,
    reference_sites: Vec<String>,
}

fn push_reference_ids(
    found: &Vec<String>,
    site: &String,
    references: &mut Vec<String>,
    sites: &mut Vec<String>,
)
    requires
        old(sites)@.len() == old(references)@.len(),
    ensures
        string_views(final(references)@) == string_views(old(references)@) + string_views(found@),
        final(sites)@.len() == final(references)@.len(),
        string_views(final(sites)@) == string_views(old(sites)@) + string_views(found@).map_values(
            |id: Seq<char>| site@,
        ),
{
    let ghost start = string_views(references@);
    let ghost start_sites = string_views(sites@);
    let ghost placed = string_views(found@).map_values(|id: Seq<char>| site@);
    let mut r: usize = 0;
    while r < found.len()
        invariant
            r <= found@.len(),
            string_views(references@) == start + string_views(found@).take(r as int),
            sites@.len() == references@.len(),
            placed == string_views(found@).map_values(|id: Seq<char>| site@),
            string_views(sites@) == start_sites + placed.take(r as int),
        decreases found@.len() - r,
    {
        let ghost before = string_views(references@);
        let ghost before_sites = string_views(sites@);
        let id = found[r].clone();
        references.push(id);
        sites.push(site.clone());
        assert(string_views(references@) =~= before.push(found@[r as int]@));
        assert(string_views(found@).take(r + 1) =~= string_views(found@).take(r as int).push(found@[r as int]@));
        assert(string_views(references@) =~= start + string_views(found@).take(r + 1));
        assert(string_views(sites@) =~= before_sites.push(site@));
        assert(placed.take(r + 1) =~= placed.take(r as int).push(site@));
        assert(string_views(sites@) =~= start_sites + placed.take(r + 1));
        r += 1;
    }
    assert(string_views(found@).take(found@.len() as int) =~= string_views(found@));
    assert(placed.take(found@.len() as int) =~= placed);
}

/// Reads every line: collects defined and referenced ids with their
/// locations, and reports the lines at fault.
fn gather(scans: &Vec<LineScan>) -> (gathered: Gathered)
    ensures
        gathered.issues@.len() == 0 <==> (forall|k: int|
            0 <= k < scans@.len() ==> !line_fault(#[trigger] scan_views(scans@)[k])),
        string_views(gathered.issues@) == line_issues_in(scan_views(scans@), scans@.len() as int),
        string_views(gathered.definitions@) == definitions_in(scan_views(scans@), scans@.len() as int),
        string_views(gathered.definition_sites@) == definition_sites_in(scan_views(scans@), scans@.len() as int),
        gathered.definition_sites@.len() == gathered.definitions@.len(),
        string_views(gathered.references@) == references_in(scan_views(scans@), scans@.len() as int),
        string_views(gathered.reference_sites@) == reference_sites_in(scan_views(scans@), scans@.len() as int),
        gathered.reference_sites@.len() == gathered.references@.len(),
{
    let ghost views = scan_views(scans@);
    let mut issues: Vec<String> = Vec::new();
    let mut definitions: Vec<String> = Vec::new();
    let mut definition_sites: Vec<String> = Vec::new();
    let mut references: Vec<String> = Vec::new();
    let mut reference_sites: Vec<String> = Vec::new();
    let mut k: usize = 0;
    while k < scans.len()
        invariant
            views == scan_views(scans@),
            k <= scans@.len(),
            issues@.len() == 0 <==> (forall|j: int| 0 <= j < k ==> !line_fault(#[trigger] views[j])),
            string_views(issues@) == line_issues_in(views, k as int),
            string_views(definitions@) == definitions_in(views, k as int),
            string_views(definition_sites@) == definition_sites_in(views, k as int),
            definition_sites@.len() == definitions@.len(),
            string_views(references@) == references_in(views, k as int),
            string_views(reference_sites@) == reference_sites_in(views, k as int),
            reference_sites@.len() == references@.len(),
        decreases scans@.len() - k,
    {
        let scan = &scans[k];
        assert(views[k as int] == scan@);
        let ghost view = scan@;
        let location = Location { path: scan.path.clone(), line: scan.line };
        let site = location.display();
        assert(site@ == site_text(view));
        let before = issues.len();
        let ghost issues_before = string_views(issues@);
        push_reference_ids(&scan.references, &site, &mut references, &mut reference_sites);
        let ghost defs_before = string_views(definitions@);
        let ghost def_sites_before = string_views(definition_sites@);
        match scan.owner {
            Some(owner) => match &scan.definition {
                Some(Some(id)) => {
                    if owner.owns(id.as_str()) {
                        definitions.push(id.clone());
                        definition_sites.push(site.clone());
                        assert(string_views(definitions@) =~= defs_before + seq![id@]);
                        assert(string_views(definition_sites@) =~= def_sites_before + seq![site@]);
                    } else {
                        let mut message = concat3("requirement definition ", id.as_str(), " has the wrong document owner at ");
                        message.append(site.as_str());
                        issues.push(message);
                    }
                },
                Some(None) => {
                    issues.push(concat2("definition parser did not capture an ID at ", site.as_str()));
                },
                None => match &scan.candidate {
                    Some(candidate) => {
                        let shown = match candidate {
                            Some(text) => text.as_str(),
                            None => "<unreadable>",
                        };
                        let mut message = concat3("invalid requirement definition ID ", shown, " at ");
                        message.append(site.as_str());
                        issues.push(message);
                    },
                    None => {},
                },
            },
            None => {},
        }
        let ghost after_definition = string_views(issues@);
        assert(after_definition =~= issues_before + definition_issues(view));
        if contains_placeholder(scan.text.as_str()) && !is_placeholder_self_check(scan.text.as_str()) {
            issues.push(concat2("placeholder found at ", site.as_str()));
        }
        assert(string_views(issues@) =~= issues_before + line_issues(view));
        assert(line_definitions(view).map_values(|id: Seq<char>| site_text(view)) =~= if line_definitions(
            view,
        ).len() == 1 {
            seq![site_text(view)]
        } else {
            Seq::<Seq<char>>::empty()
        });
        assert(string_views(definitions@) =~= definitions_in(views, k + 1));
        assert(string_views(definition_sites@) =~= definition_sites_in(views, k + 1));
        assert(string_views(reference_sites@) =~= reference_sites_in(views, k + 1));
        assert(string_views(issues@) =~= line_issues_in(views, k + 1));
        assert(issues@.len() >= before);
        assert((issues@.len() == before) <==> !line_fault(views[k as int]));
        k += 1;
    }
    Gathered { issues, definitions, definition_sites, references, reference_sites }
}

/// The places of the first `n` ids that are `id`, joined by `, `.
pub open spec fn sites_joined(ids: Seq<Seq<char>>, sites: Seq<Seq<char>>, id: Seq<char>, n: int) -> Seq<char>
    decreases n,
{
    if n <= 0 {
        Seq::empty()
    } else if ids[n - 1] == id {
        sites_joined(ids, sites, id, n - 1) + if occurrences(ids, id, n - 1) > 0 {
            ", "@
        } else {
            Seq::<char>::empty()
        } + sites[n - 1]
    } else {
        sites_joined(ids, sites, id, n - 1)
    }
}

/// Two sequences of ids hold the same ids.
pub open spec fn same_ids(a: Seq<Seq<char>>, b: Seq<Seq<char>>) -> bool {
    forall|x: Seq<char>| a.contains(x) <==> b.contains(x)
}

/// The ids of `ids`, each once, in increasing `String` order.
pub open spec fn sorted_keys(ids: Seq<Seq<char>>) -> Seq<Seq<char>> {
    choose|sorted: Seq<Seq<char>>| strictly_sorted(sorted) && same_ids(sorted, ids)
}

/// Two strictly sorted sequences that hold the same ids are equal.
proof fn lemma_sorted_unique(a: Seq<Seq<char>>, b: Seq<Seq<char>>)
    requires
        strictly_sorted(a),
        strictly_sorted(b),
        same_ids(a, b),
    ensures
        a == b,
    decreases a.len(),
{
    if a.len() == 0 {
        if b.len() > 0 {
            assert(b.contains(b[0]));
        }
        assert(a =~= b);
    } else if b.len() == 0 {
        assert(a.contains(a[0]));
    } else {
        assert(a.contains(a[0]) && b.contains(b[0]));
        let i = choose|i: int| 0 <= i < a.len() && a[i] == b[0];
        let j = choose|j: int| 0 <= j < b.len() && b[j] == a[0];
        if a[0] != b[0] {
            assert(i > 0 && j > 0);
            assert(lex_less(a[0], a[i]));
            assert(lex_less(b[0], b[j]));
            lemma_lex_trichotomy(a[0], b[0]);
        }
        let ta = a.drop_first();
        let tb = b.drop_first();
        assert forall|x: Seq<char>| ta.contains(x) <==> (a.contains(x) && x != a[0]) by {
            if ta.contains(x) {
                let k = choose|k: int| 0 <= k < ta.len() && ta[k] == x;
                assert(a[k + 1] == x);
                assert(lex_less(a[0], a[k + 1]));
                lemma_lex_trichotomy(a[0], a[0]);
            }
            if a.contains(x) && x != a[0] {
                let k = choose|k: int| 0 <= k < a.len() && a[k] == x;
                assert(ta[k - 1] == x);
            }
        }
        assert forall|x: Seq<char>| tb.contains(x) <==> (b.contains(x) && x != b[0]) by {
            if tb.contains(x) {
                let k = choose|k: int| 0 <= k < tb.len() && tb[k] == x;
                assert(b[k + 1] == x);
                assert(lex_less(b[0], b[k + 1]));
                lemma_lex_trichotomy(b[0], b[0]);
            }
            if b.contains(x) && x != b[0] {
                let k = choose|k: int| 0 <= k < b.len() && b[k] == x;
                assert(tb[k - 1] == x);
            }
        }
        assert(strictly_sorted(ta)) by {
            assert forall|p: int, q: int| 0 <= p < q < ta.len() implies lex_less(ta[p], ta[q]) by {
                assert(ta[p] == a[p + 1] && ta[q] == a[q + 1]);
            }
        }
        assert(strictly_sorted(tb)) by {
            assert forall|p: int, q: int| 0 <= p < q < tb.len() implies lex_less(tb[p], tb[q]) by {
                assert(tb[p] == b[p + 1] && tb[q] == b[q + 1]);
            }
        }
        lemma_sorted_unique(ta, tb);
        assert forall|k: int| 0 <= k < a.len() implies a[k] == b[k] by {
            if k > 0 {
                assert(a[k] == ta[k - 1] && b[k] == tb[k - 1]);
            }
        }
        assert(a =~= b);
    }
}

/// A strictly sorted sequence with the ids of `ids` is their sorted order.
proof fn lemma_sorted_keys(keys: Seq<Seq<char>>, ids: Seq<Seq<char>>)
    requires
        strictly_sorted(keys),
        same_ids(keys, ids),
    ensures
        sorted_keys(ids) == keys,
{
    let chosen = sorted_keys(ids);
    assert(strictly_sorted(chosen) && same_ids(chosen, ids));
    lemma_sorted_unique(chosen, keys);
}

/// The reports of the first `m` of `keys` that `defs` defines more than
/// once, each with all its places.
pub open spec fn duplicate_issues(keys: Seq<Seq<char>>, defs: Seq<Seq<char>>, sites: Seq<Seq<char>>, m: int) -> Seq<Seq<char>>
    decreases m,
{
    if m <= 0 {
        Seq::empty()
    } else {
        duplicate_issues(keys, defs, sites, m - 1) + if occurrences(defs, keys[m - 1], defs.len() as int) > 1 {
            seq!["duplicate definition "@ + keys[m - 1] + ": "@ + sites_joined(defs, sites, keys[m - 1], defs.len() as int)]
        } else {
            Seq::empty()
        }
    }
}

/// The reports of the first `m` of `keys` that `defs` does not define,
/// each with all the places that mention it.
pub open spec fn dangling_issues(
    keys: Seq<Seq<char>>,
    defs: Seq<Seq<char>>,
    refs: Seq<Seq<char>>,
    sites: Seq<Seq<char>>,
    m: int,
) -> Seq<Seq<char>>
    decreases m,
{
    if m <= 0 {
        Seq::empty()
    } else {
        dangling_issues(keys, defs, refs, sites, m - 1) + if !defs.contains(keys[m - 1]) {
            seq!["dangling requirement reference "@ + keys[m - 1] + ": "@ + sites_joined(refs, sites, keys[m - 1], refs.len() as int)]
        } else {
            Seq::empty()
        }
    }
}

/// `modules/NFR/UX/total` as a report shows counts.
pub open spec fn counts_text(modules: int, nfr: int, ux: int) -> Seq<char> {
    decimal(modules as nat) + "/"@ + decimal(nfr as nat) + "/"@ + decimal(ux as nat) + "/"@ + decimal(
        (modules + nfr + ux) as nat,
    )
}

/// The report of counts that differ from the approved ones.
pub open spec fn drift_issues(got: (int, int, int), expected: Counts) -> Seq<Seq<char>> {
    if got == (expected.modules as int, expected.nfr as int, expected.ux as int) {
        Seq::empty()
    } else {
        seq![
            "definition count drift: expected modules/NFR/UX/total "@ + counts_text(
                expected.modules as int,
                expected.nfr as int,
                expected.ux as int,
            ) + ", got "@ + counts_text(got.0, got.1, got.2),
        ]
    }
}

/// What a failed anchor checker is reported with: its trimmed output and
/// error output, the empty ones left out, joined by ` | `.
pub open spec fn anchor_evidence(out: Seq<char>, err: Seq<char>) -> Seq<char> {
    if out.len() > 0 && err.len() > 0 {
        out + " | "@ + err
    } else if out.len() > 0 {
        out
    } else {
        err
    }
}

/// The report of an anchor checker that failed or could not start.
pub open spec fn anchor_issues(anchor: Result<AnchorOutput, String>) -> Seq<Seq<char>> {
    match anchor {
        Ok(output) => if output.success {
            Seq::empty()
        } else {
            seq!["anchor checker failed: "@ + anchor_evidence(trimmed(output.stdout@), trimmed(output.stderr@))]
        },
        Err(error) => seq!["anchor checker spawn failed: "@ + error@],
    }
}

/// Every issue of a scanned tree, in the order reported: the lines at
/// fault, the ids defined twice, the count drift, the undefined
/// references, the anchor checker.
pub open spec fn tree_issues(
    scans: Seq<ScanView>,
    expected: Counts,
    anchor: Result<AnchorOutput, String>,
) -> Seq<Seq<char>> {
    let n = scans.len() as int;
    let defs = definitions_in(scans, n);
    let refs = references_in(scans, n);
    let unique = first_occurrences(defs);
    let defined = sorted_keys(unique);
    let mentioned = sorted_keys(first_occurrences(refs));
    line_issues_in(scans, n) + duplicate_issues(defined, defs, definition_sites_in(scans, n), defined.len() as int)
        + drift_issues(counted(unique, unique.len() as int), expected) + dangling_issues(
        mentioned,
        defs,
        refs,
        reference_sites_in(scans, n),
        mentioned.len() as int,
    ) + anchor_issues(anchor)
}

/// The first `n` issues, joined by a line break and `- `.
pub open spec fn bullet_list(issues: Seq<Seq<char>>, n: int) -> Seq<char>
    decreases n,
{
    if n <= 0 {
        Seq::empty()
    } else if n == 1 {
        issues[0]
    } else {
        bullet_list(issues, n - 1) + "\n- "@ + issues[n - 1]
    }
}

/// The report of a tree with `issues`.
pub open spec fn issue_report_text(issues: Seq<Seq<char>>) -> Seq<char> {
    "document invariant check failed with "@ + decimal(issues.len()) + " issue(s):\n- "@ + bullet_list(
        issues,
        issues.len() as int,
    )
}

/// The number of places `id` stands in `ids`, and those places joined by
/// `, `.
fn sites_of(ids: &Vec<String>, sites: &Vec<String>, id: &String) -> (found: (usize, String))
    requires
        sites@.len() == ids@.len(),
    ensures
        found.0 == occurrences(string_views(ids@), id@, ids@.len() as int),
        found.1@ == sites_joined(string_views(ids@), string_views(sites@), id@, ids@.len() as int),
{
    let ghost all = string_views(ids@);
    let ghost places = string_views(sites@);
    let mut count: usize = 0;
    let mut shown = String::new();
    let mut p: usize = 0;
    while p < ids.len()
        invariant
            all == string_views(ids@),
            places == string_views(sites@),
            sites@.len() == ids@.len(),
            p <= ids@.len(),
            count == occurrences(all, id@, p as int),
            count <= p,
            shown@ == sites_joined(all, places, id@, p as int),
        decreases ids@.len() - p,
    {
        assert(all[p as int] == ids@[p as int]@);
        assert(places[p as int] == sites@[p as int]@);
        if ids[p] == *id {
            if count > 0 {
                shown.append(", ");
            }
            shown.append(sites[p].as_str());
            count += 1;
        }
        p += 1;
    }
    (count, shown)
}

/// Reports every id defined more than once, in `String` order, with all its
/// places; reports nothing exactly when no id is defined twice.
fn report_duplicates(
    definitions: &Vec<String>,
    sites: &Vec<String>,
    unique: &Vec<String>,
    issues: &mut Vec<String>,
)
    requires
        sites@.len() == definitions@.len(),
        string_views(unique@) == first_occurrences(string_views(definitions@)),
    ensures
        final(issues)@.len() >= old(issues)@.len(),
        (final(issues)@.len() == old(issues)@.len()) <==> string_views(definitions@).no_duplicates(),
        string_views(final(issues)@) == string_views(old(issues)@) + duplicate_issues(
            sorted_keys(string_views(unique@)),
            string_views(definitions@),
            string_views(sites@),
            sorted_keys(string_views(unique@)).len() as int,
        ),
{
    let ghost defs = string_views(definitions@);
    let ghost places = string_views(sites@);
    proof {
        lemma_first_occurrences(defs);
    }
    let sorted = sorted_ids(unique);
    let ghost keys = string_views(sorted@);
    proof {
        lemma_no_duplicates_by_keys(defs, keys);
        lemma_sorted_keys(keys, string_views(unique@));
    }
    let ghost start = issues@.len();
    let ghost start_views = string_views(issues@);
    let mut m: usize = 0;
    while m < sorted.len()
        invariant
            defs == string_views(definitions@),
            places == string_views(sites@),
            keys == string_views(sorted@),
            sites@.len() == definitions@.len(),
            m <= sorted@.len(),
            issues@.len() >= start,
            start == start_views.len(),
            (issues@.len() == start) <==> (forall|q: int|
                0 <= q < m ==> occurrences(defs, #[trigger] keys[q], defs.len() as int) <= 1),
            string_views(issues@) == start_views + duplicate_issues(keys, defs, places, m as int),
        decreases sorted@.len() - m,
    {
        let (count, shown) = sites_of(definitions, sites, &sorted[m]);
        assert(keys[m as int] == sorted@[m as int]@);
        let ghost before = string_views(issues@);
        if count > 1 {
            let mut message = concat3("duplicate definition ", sorted[m].as_str(), ": ");
            message.append(shown.as_str());
            issues.push(message);
            assert(string_views(issues@) =~= before.push(message@));
        }
        assert(string_views(issues@) =~= start_views + duplicate_issues(keys, defs, places, m + 1));
        m += 1;
    }
}

/// Reports every referenced id that no line defines, in `String` order,
/// with all its places; reports nothing exactly when every reference is
/// defined.
fn report_dangling(
    definitions: &Vec<String>,
    references: &Vec<String>,
    sites: &Vec<String>,
    issues: &mut Vec<String>,
)
    requires
        sites@.len() == references@.len(),
    ensures
        final(issues)@.len() >= old(issues)@.len(),
        (final(issues)@.len() == old(issues)@.len()) <==> (forall|k: int|
            0 <= k < references@.len() ==> string_views(definitions@).contains(
                #[trigger] string_views(references@)[k],
            )),
        string_views(final(issues)@) == string_views(old(issues)@) + dangling_issues(
            sorted_keys(first_occurrences(string_views(references@))),
            string_views(definitions@),
            string_views(references@),
            string_views(sites@),
            sorted_keys(first_occurrences(string_views(references@))).len() as int,
        ),
{
    let ghost defs = string_views(definitions@);
    let ghost refs = string_views(references@);
    let ghost places = string_views(sites@);
    let unique = distinct_ids(references);
    proof {
        lemma_first_occurrences(refs);
    }
    let sorted = sorted_ids(&unique);
    let ghost keys = string_views(sorted@);
    proof {
        lemma_sorted_keys(keys, first_occurrences(refs));
    }
    let ghost start = issues@.len();
    let ghost start_views = string_views(issues@);
    let mut m: usize = 0;
    while m < sorted.len()
        invariant
            defs == string_views(definitions@),
            refs == string_views(references@),
            places == string_views(sites@),
            keys == string_views(sorted@),
            forall|x: Seq<char>| keys.contains(x) <==> refs.contains(x),
            sites@.len() == references@.len(),
            m <= sorted@.len(),
            issues@.len() >= start,
            start == start_views.len(),
            (issues@.len() == start) <==> (forall|q: int| 0 <= q < m ==> defs.contains(#[trigger] keys[q])),
            string_views(issues@) == start_views + dangling_issues(keys, defs, refs, places, m as int),
        decreases sorted@.len() - m,
    {
        assert(keys[m as int] == sorted@[m as int]@);
        let ghost before = string_views(issues@);
        if !contains_id(definitions, &sorted[m]) {
            let (_, shown) = sites_of(references, sites, &sorted[m]);
            let mut message = concat3("dangling requirement reference ", sorted[m].as_str(), ": ");
            message.append(shown.as_str());
            issues.push(message);
            assert(string_views(issues@) =~= before.push(message@));
        }
        assert(string_views(issues@) =~= start_views + dangling_issues(keys, defs, refs, places, m + 1));
        m += 1;
    }
    proof {
        if forall|q: int| 0 <= q < keys.len() ==> defs.contains(#[trigger] keys[q]) {
            assert forall|k: int| 0 <= k < refs.len() implies defs.contains(#[trigger] refs[k]) by {
                assert(refs.contains(refs[k]));
                assert(keys.contains(refs[k]));
                let q = choose|q: int| 0 <= q < keys.len() && keys[q] == refs[k];
                assert(defs.contains(keys[q]));
            }
        } else {
            let q = choose|q: int| 0 <= q < keys.len() && !defs.contains(#[trigger] keys[q]);
            assert(keys.contains(keys[q]));
            assert(refs.contains(keys[q]));
            let k = choose|k: int| 0 <= k < refs.len() && refs[k] == keys[q];
            assert(!defs.contains(refs[k]));
        }
    }
}

/// Reports a failed or unstartable anchor checker with its evidence.
fn report_anchor(anchor: &Result<AnchorOutput, String>, issues: &mut Vec<String>)
    ensures
        final(issues)@.len() >= old(issues)@.len(),
        (final(issues)@.len() == old(issues)@.len()) <==> anchor_passed(*anchor),
        string_views(final(issues)@) == string_views(old(issues)@) + anchor_issues(*anchor),
{
    let ghost before = string_views(issues@);
    match anchor {
        Ok(output) => {
            if !output.success {
                let out = trim(output.stdout.as_str());
                let err = trim(output.stderr.as_str());
                let evidence = if out.unicode_len() > 0 && err.unicode_len() > 0 {
                    concat3(out.as_str(), " | ", err.as_str())
                } else if out.unicode_len() > 0 {
                    out
                } else {
                    err
                };
                issues.push(concat2("anchor checker failed: ", evidence.as_str()));
            }
        },
        Err(error) => {
            issues.push(concat2("anchor checker spawn failed: ", error.as_str()));
        },
    }
    assert(string_views(issues@) =~= before + anchor_issues(*anchor));
}

/// `document invariant check failed with {n} issue(s):` and the issues, one
/// per line after `- `.
fn issue_report(issues: &Vec<String>) -> (report: String)
    ensures
        report@ == issue_report_text(string_views(issues@)),
{
    let ghost all = string_views(issues@);
    let head = concat3(
        "document invariant check failed with ",
        decimal_string(issues.len() as u64).as_str(),
        " issue(s):\n- ",
    );
    let mut list = String::new();
    let mut i: usize = 0;
    while i < issues.len()
        invariant
            all == string_views(issues@),
            i <= issues@.len(),
            list@ == bullet_list(all, i as int),
        decreases issues@.len() - i,
    {
        assert(all[i as int] == issues@[i as int]@);
        if i > 0 {
            list.append("\n- ");
        }
        list.append(issues[i].as_str());
        assert(list@ =~= bullet_list(all, i + 1));
        i += 1;
    }
    let report = concat2(head.as_str(), list.as_str());
    assert(report@ =~= issue_report_text(all));
    report
}

/// Reports counts that differ from the approved ones, both shown as
/// `modules/NFR/UX/total`.
fn report_drift(counts: Counts, expected: Counts, issues: &mut Vec<String>)
    requires
        counts.modules + counts.nfr + counts.ux <= usize::MAX,
        expected.modules + expected.nfr + expected.ux <= usize::MAX,
    ensures
        final(issues)@.len() >= old(issues)@.len(),
        (final(issues)@.len() == old(issues)@.len()) <==> counts == expected,
        string_views(final(issues)@) == string_views(old(issues)@) + drift_issues(
            (counts.modules as int, counts.nfr as int, counts.ux as int),
            expected,
        ),
{
    let ghost before = string_views(issues@);
    if !(counts == expected) {
        let mut message = concat2(
            "definition count drift: expected modules/NFR/UX/total ",
            decimal_string(expected.modules as u64).as_str(),
        );
        message.append("/");
        message.append(decimal_string(expected.nfr as u64).as_str());
        message.append("/");
        message.append(decimal_string(expected.ux as u64).as_str());
        message.append("/");
        message.append(decimal_string(expected.total() as u64).as_str());
        message.append(", got ");
        message.append(decimal_string(counts.modules as u64).as_str());
        message.append("/");
        message.append(decimal_string(counts.nfr as u64).as_str());
        message.append("/");
        message.append(decimal_string(counts.ux as u64).as_str());
        message.append("/");
        message.append(decimal_string(counts.total() as u64).as_str());
        assert(message@ =~= "definition count drift: expected modules/NFR/UX/total "@ + counts_text(
            expected.modules as int,
            expected.nfr as int,
            expected.ux as int,
        ) + ", got "@ + counts_text(counts.modules as int, counts.nfr as int, counts.ux as int));
        issues.push(message);
        assert(string_views(issues@) =~= before.push(message@));
    } else {
        assert(string_views(issues@) =~= before + Seq::<Seq<char>>::empty());
    }
}

/// Checks a scanned document tree: the lines at fault, ids defined twice,
/// definition counts that differ from `expected`, references to undefined
/// ids and a failed anchor check are all reported together, and the tree
/// passes (with its counts) exactly when there is none.
pub fn validate_scanned(
    scans: &Vec<LineScan>,
    expected: Counts,
    anchor: &Result<AnchorOutput, String>,
) -> (result: Result<Counts, String>)
    requires
        expected.modules + expected.nfr + expected.ux <= usize::MAX,
    ensures
        result is Ok <==> scans_pass(scan_views(scans@), expected, anchor_passed(*anchor)),
        result matches Ok(counts) ==> counts == expected,
        result matches Err(message) ==> message@ == issue_report_text(
            tree_issues(scan_views(scans@), expected, *anchor),
        ),
{
    let Gathered { issues, definitions, definition_sites, references, reference_sites } = gather(scans);
    let mut issues = issues;
    let ghost views = scan_views(scans@);
    let ghost defs = string_views(definitions@);
    let unique = distinct_ids(&definitions);
    report_duplicates(&definitions, &definition_sites, &unique, &mut issues);
    let counts = count_definitions(&unique);
    proof {
        lemma_counted_bound(string_views(unique@), unique@.len() as int);
    }
    let distinct = unique.len();
    assert(counts.modules + counts.nfr + counts.ux <= distinct);
    report_drift(counts, expected, &mut issues);
    report_dangling(&definitions, &references, &reference_sites, &mut issues);
    report_anchor(anchor, &mut issues);
    assert(string_views(issues@) =~= tree_issues(views, expected, *anchor));
    if issues.len() == 0 {
        Ok(counts)
    } else {
        Err(issue_report(&issues))
    }
}

// ------------------------------------------------------------ the tree

/// A requirement id mentioned anywhere.
pub const ID_PATTERN: &'static str = "\\b(?:M[1-8]|NFR|UX)-[A-Z0-9]+-[0-9]{3}\\b";

/// A table row that defines a well-formed requirement id.
pub const DEFINITION_PATTERN: &'static str = "^\\s*\\|\\s*`?((?:M[1-8]|NFR|UX)-[A-Z0-9]+-[0-9]{3})`?\\s*\\|";

/// A table row that looks like a definition, well-formed or not.
pub const DEFINITION_CANDIDATE_PATTERN: &'static str = "^\\s*\\|\\s*`?((?:M[0-9]+|NFR|UX)-[^`|\\s]+)`?\\s*\\|";

/// The three patterns of the check compile.
pub open spec fn patterns_compile() -> bool {
    &&& regex_compiles(ID_PATTERN@)
    &&& regex_compiles(DEFINITION_PATTERN@)
    &&& regex_compiles(DEFINITION_CANDIDATE_PATTERN@)
}

/// How a document at `path` is shown: below `root` when it is there, with
/// `/` separators.
pub open spec fn document_path(root: Seq<char>, path: Seq<char>) -> Seq<char> {
    replaced(
        match path_below(path, root) {
            Some(relative) => relative,
            None => path,
        },
        '\\',
        '/',
    )
}

/// The kind of the document at `path`, if it may define ids.
pub open spec fn document_owner(root: Seq<char>, path: Seq<char>) -> Option<DefinitionOwner> {
    match path_below(path, root) {
        Some(relative) => owner_of(replaced(relative, '\\', '/')),
        None => None,
    }
}

/// The scan of line `number` (counted from 1) of a document.
pub open spec fn scan_of(path: Seq<char>, owner: Option<DefinitionOwner>, number: int, line: Seq<char>) -> ScanView {
    ScanView {
        path,
        line: number as usize,
        owner,
        text: line,
        references: regex_find_all(ID_PATTERN@, line),
        definition: if owner is Some {
            regex_first_group(DEFINITION_PATTERN@, line)
        } else {
            None
        },
        candidate: if owner is Some {
            regex_first_group(DEFINITION_CANDIDATE_PATTERN@, line)
        } else {
            None
        },
    }
}

/// The scans of every line of the document `text` at `path`.
pub open spec fn document_scans(root: Seq<char>, path: Seq<char>, text: Seq<char>) -> Seq<ScanView> {
    let lines = text_lines(text);
    Seq::new(
        lines.len(),
        |k: int| scan_of(document_path(root, path), document_owner(root, path), k + 1, lines[k]),
    )
}

/// The scans of every line of every document, in the order given.
pub open spec fn tree_scans(root: Seq<char>, documents: Seq<(Seq<char>, Seq<char>)>) -> Seq<ScanView>
    decreases documents.len(),
{
    if documents.len() == 0 {
        Seq::empty()
    } else {
        tree_scans(root, documents.drop_last()) + document_scans(root, documents.last().0, documents.last().1)
    }
}

/// Paths and texts of documents.
pub open spec fn document_views(documents: Seq<(String, String)>) -> Seq<(Seq<char>, Seq<char>)> {
    documents.map_values(|document: (String, String)| (document.0@, document.1@))
}

fn compile_pattern(source: &str) -> (compiled: Result<Pattern, String>)
    ensures
        compiled is Ok <==> regex_compiles(source@),
        compiled matches Ok(pattern) ==> pattern@ == source@,
        compiled matches Err(message) ==> has_prefix(message@, "document validator regex stage failed: "@),
{
    match Pattern::compile(source) {
        Ok(pattern) => Ok(pattern),
        Err(error) => {
            let head = "document validator regex stage failed: ";
            let message = concat2(head, error.as_str());
            assert(message@.subrange(0, head@.len() as int) =~= head@);
            Err(message)
        },
    }
}

/// Checks the documents of a tree, each given by its path and text (in the
/// order the tree is walked), with the anchor checker's outcome: every
/// line is scanned for ids and definitions, and the tree passes exactly
/// when the scans satisfy every document invariant.
pub fn validate_document_tree(
    root: &str,
    documents: &Vec<(String, String)>,
    expected: Counts,
    anchor: &Result<AnchorOutput, String>,
) -> (result: Result<Counts, String>)
    requires
        expected.modules + expected.nfr + expected.ux <= usize::MAX,
    ensures
        result is Ok <==> (patterns_compile() && scans_pass(
            tree_scans(root@, document_views(documents@)),
            expected,
            anchor_passed(*anchor),
        )),
        result matches Ok(counts) ==> counts == expected,
        !patterns_compile() ==> (result matches Err(message) && has_prefix(
            message@,
            "document validator regex stage failed: "@,
        )),
        patterns_compile() ==> (result matches Err(message) ==> message@ == issue_report_text(
            tree_issues(tree_scans(root@, document_views(documents@)), expected, *anchor),
        )),
{
    let id_pattern = match compile_pattern(ID_PATTERN) {
        Ok(pattern) => pattern,
        Err(message) => return Err(message),
    };
    let definition_pattern = match compile_pattern(DEFINITION_PATTERN) {
        Ok(pattern) => pattern,
        Err(message) => return Err(message),
    };
    let candidate_pattern = match compile_pattern(DEFINITION_CANDIDATE_PATTERN) {
        Ok(pattern) => pattern,
        Err(message) => return Err(message),
    };
    let ghost docs = document_views(documents@);
    let mut scans: Vec<LineScan> = Vec::new();
    let mut d: usize = 0;
    assert(docs.take(0) =~= Seq::<(Seq<char>, Seq<char>)>::empty());
    while d < documents.len()
        invariant
            docs == document_views(documents@),
            d <= documents@.len(),
            id_pattern@ == ID_PATTERN@,
            definition_pattern@ == DEFINITION_PATTERN@,
            candidate_pattern@ == DEFINITION_CANDIDATE_PATTERN@,
            scan_views(scans@) == tree_scans(root@, docs.take(d as int)),
        decreases documents@.len() - d,
    {
        let path = documents[d].0.as_str();
        let text = documents[d].1.as_str();
        assert(docs[d as int] == (path@, text@));
        let shown = relative_display(root, path);
        let owner = definition_owner(root, path);
        let lines = split_text_lines(text);
        let ghost done = scan_views(scans@);
        let ghost these = document_scans(root@, path@, text@);
        let mut k: usize = 0;
        assert(these.take(0) =~= Seq::<ScanView>::empty());
        assert(done + these.take(0) =~= done);
        while k < lines.len()
            invariant
                id_pattern@ == ID_PATTERN@,
                definition_pattern@ == DEFINITION_PATTERN@,
                candidate_pattern@ == DEFINITION_CANDIDATE_PATTERN@,
                string_views(lines@) == text_lines(text@),
                shown@ == document_path(root@, path@),
                owner == document_owner(root@, path@),
                these == document_scans(root@, path@, text@),
                k <= lines@.len(),
                scan_views(scans@) == done + these.take(k as int),
            decreases lines@.len() - k,
        {
            let line = lines[k].as_str();
            assert(line@ == text_lines(text@)[k as int]);
            let references = id_pattern.find_all(line);
            let (definition, candidate) = match owner {
                Some(_) => (definition_pattern.first_group(line), candidate_pattern.first_group(line)),
                None => (None, None),
            };
            let scan = LineScan {
                path: shown.clone(),
                line: k + 1,
                owner,
                text: lines[k].clone(),
                references,
                definition,
                candidate,
            };
            assert(scan@ == these[k as int]);
            let ghost before = scan_views(scans@);
            scans.push(scan);
            assert(scan_views(scans@) =~= before.push(these[k as int]));
            assert(these.take(k + 1) =~= these.take(k as int).push(these[k as int]));
            assert(scan_views(scans@) =~= done + these.take(k + 1));
            k += 1;
        }
        assert(these.take(lines@.len() as int) =~= these);
        assert(docs.take(d + 1).drop_last() =~= docs.take(d as int));
        assert(docs.take(d + 1).last() == (path@, text@));
        d += 1;
    }
    assert(docs.take(documents@.len() as int) =~= docs);
    validate_scanned(&scans, expected, anchor)
}

} // verus!
