//! The canonical text form of an encoded configuration: LF line endings, no
//! trailing whitespace on any line, no trailing blank lines and exactly one
//! final newline.
use vstd::prelude::*;

verus! {

/// Whether `c` has the Unicode `White_Space` property (what `char::is_whitespace`
/// and `str::trim_end` test).
pub open spec fn is_white_space(c: char) -> bool {
    ||| ('\u{9}' <= c <= '\u{d}')
    ||| c == ' '
    ||| c == '\u{85}'
    ||| c == '\u{a0}'
    ||| c == '\u{1680}'
    ||| ('\u{2000}' <= c <= '\u{200a}')
    ||| c == '\u{2028}'
    ||| c == '\u{2029}'
    ||| c == '\u{202f}'
    ||| c == '\u{205f}'
    ||| c == '\u{3000}'
}

/// Tests [`is_white_space`].
pub fn char_is_white_space(c: char) -> (r: bool)
    ensures
        r == is_white_space(c),
{
    ('\u{9}' <= c && c <= '\u{d}') || c == ' ' || c == '\u{85}' || c == '\u{a0}' || c == '\u{1680}'
        || ('\u{2000}' <= c && c <= '\u{200a}') || c == '\u{2028}' || c == '\u{2029}' || c == '\u{202f}'
        || c == '\u{205f}' || c == '\u{3000}'
}

/// Whether every character of `text` is white space (what makes
/// `str::trim` empty).
pub open spec fn blank(text: Seq<char>) -> bool {
    forall|i: int| 0 <= i < text.len() ==> is_white_space(#[trigger] text[i])
}

/// Tests [`blank`].
pub(crate) fn is_blank(text: &str) -> (r: bool)
    ensures
        r == blank(text@),
{
    let n = text.unicode_len();
    let mut i: usize = 0;
    while i < n
        invariant
            n == text@.len(),
            i <= n,
            forall|j: int| 0 <= j < i ==> is_white_space(#[trigger] text@[j]),
        decreases n - i,
    {
        if !char_is_white_space(text.get_char(i)) {
            return false;
        }
        i += 1;
    }
    true
}

/// `text` with every CRLF pair and then every lone CR turned into LF.
pub open spec fn lf(text: Seq<char>) -> Seq<char>
    decreases text.len(),
{
    if text.len() == 0 {
        Seq::empty()
    } else if text[0] == '\r' && text.len() >= 2 && text[1] == '\n' {
        seq!['\n'] + lf(text.skip(2))
    } else if text[0] == '\r' {
        seq!['\n'] + lf(text.skip(1))
    } else {
        seq![text[0]] + lf(text.skip(1))
    }
}

/// The pieces of `text` between LF characters (what `str::split('\n')` gives:
/// one more piece than there are LFs).
pub open spec fn lines_of(text: Seq<char>) -> Seq<Seq<char>>
    decreases text.len(),
{
    if text.len() == 0 {
        seq![Seq::empty()]
    } else {
        let before = lines_of(text.drop_last());
        if text.last() == '\n' {
            before.push(Seq::empty())
        } else {
            before.update(before.len() - 1, before.last().push(text.last()))
        }
    }
}

/// `line` without its trailing white space.
pub open spec fn trim_end(line: Seq<char>) -> Seq<char>
    decreases line.len(),
{
    if line.len() > 0 && is_white_space(line.last()) {
        trim_end(line.drop_last())
    } else {
        line
    }
}

/// `lines` without its trailing empty lines.
pub open spec fn drop_blank_tail(lines: Seq<Seq<char>>) -> Seq<Seq<char>>
    decreases lines.len(),
{
    if lines.len() > 0 && lines.last().len() == 0 {
        drop_blank_tail(lines.drop_last())
    } else {
        lines
    }
}

/// `lines` joined with LF between them.
pub open spec fn join_lines(lines: Seq<Seq<char>>) -> Seq<char>
    decreases lines.len(),
{
    if lines.len() == 0 {
        Seq::empty()
    } else if lines.len() == 1 {
        lines[0]
    } else {
        join_lines(lines.drop_last()) + seq!['\n'] + lines.last()
    }
}

/// The canonical form of `text`.
pub open spec fn canonical_text(text: Seq<char>) -> Seq<char> {
    join_lines(drop_blank_tail(lines_of(lf(text)).map_values(|l: Seq<char>| trim_end(l)))) + seq!['\n']
}

fn lf_chars(text: &str) -> (out: Vec<char>)
    ensures
        out@ == lf(text@),
{
    let n = text.unicode_len();
    let mut out: Vec<char> = Vec::new();
    let mut i: usize = 0;
    assert(text@.skip(0) =~= text@);
    assert(out@ + lf(text@) =~= lf(text@));
    while i < n
        invariant
            n == text@.len(),
            i <= n,
            out@ + lf(text@.skip(i as int)) == lf(text@),
        decreases n - i,
    {
        let ghost rest = text@.skip(i as int);
        let c = text.get_char(i);
        if c == '\r' && i + 1 < n && text.get_char(i + 1) == '\n' {
            assert(rest.skip(2) =~= text@.skip(i + 2));
            out.push('\n');
            i += 2;
        } else if c == '\r' {
            assert(rest.skip(1) =~= text@.skip(i + 1));
            out.push('\n');
            i += 1;
        } else {
            assert(rest.skip(1) =~= text@.skip(i + 1));
            out.push(c);
            i += 1;
        }
    }
    assert(text@.skip(n as int) =~= Seq::<char>::empty());
    assert(out@ + Seq::<char>::empty() =~= out@);
    out
}

spec fn line_views(lines: Seq<Vec<char>>) -> Seq<Seq<char>> {
    lines.map_values(|l: Vec<char>| l@)
}

fn split_lines(text: &Vec<char>) -> (lines: Vec<Vec<char>>)
    ensures
        line_views(lines@) == lines_of(text@),
{
    let n = text.len();
    let mut done: Vec<Vec<char>> = Vec::new();
    let mut current: Vec<char> = Vec::new();
    let mut i: usize = 0;
    while i < n
        invariant
            n == text@.len(),
            i <= n,
            line_views(done@).push(current@) == lines_of(text@.take(i as int)),
        decreases n - i,
    {
        let c = text[i];
        assert(text@.take(i + 1).drop_last() =~= text@.take(i as int));
        assert(text@.take(i + 1).last() == c);
        if c == '\n' {
            let finished = current;
            done.push(finished);
            current = Vec::new();
            assert(line_views(done@) =~= lines_of(text@.take(i as int)));
            assert(line_views(done@).push(current@) =~= lines_of(text@.take(i + 1)));
        } else {
            let ghost before = lines_of(text@.take(i as int));
            current.push(c);
            assert(line_views(done@).push(current@) =~= before.update(before.len() - 1, before.last().push(c)));
        }
        i += 1;
    }
    assert(text@.take(n as int) =~= text@);
    done.push(current);
    assert(line_views(done@) =~= lines_of(text@));
    done
}

fn trim_line(line: &Vec<char>) -> (trimmed: Vec<char>)
    ensures
        trimmed@ == trim_end(line@),
{
    let mut end = line.len();
    assert(line@.take(end as int) =~= line@);
    while end > 0 && char_is_white_space(line[end - 1])
        invariant
            end <= line@.len(),
            trim_end(line@) == trim_end(line@.take(end as int)),
        decreases end,
    {
        assert(line@.take(end as int).drop_last() =~= line@.take(end - 1));
        end -= 1;
    }
    let mut trimmed: Vec<char> = Vec::new();
    let mut i: usize = 0;
    while i < end
        invariant
            end <= line@.len(),
            i <= end,
            trimmed@ == line@.take(i as int),
        decreases end - i,
    {
        trimmed.push(line[i]);
        assert(trimmed@ =~= line@.take(i + 1));
        i += 1;
    }
    assert(line@.take(end as int) =~= trimmed@);
    trimmed
}

/// Rewrites `text` into its canonical form.
pub fn canonicalize(text: &str) -> (out: Vec<char>)
    ensures
        out@ == canonical_text(text@),
{
    let normalized = lf_chars(text);
    let lines = split_lines(&normalized);
    let ghost all = lines_of(lf(text@)).map_values(|l: Seq<char>| trim_end(l));
    let n = lines.len();
    let mut trimmed: Vec<Vec<char>> = Vec::new();
    let mut i: usize = 0;
    while i < n
        invariant
            n == lines@.len(),
            line_views(lines@) == lines_of(lf(text@)),
            all == lines_of(lf(text@)).map_values(|l: Seq<char>| trim_end(l)),
            i <= n,
            line_views(trimmed@) == all.take(i as int),
        decreases n - i,
    {
        let line = trim_line(&lines[i]);
        assert(line_views(lines@)[i as int] == lines@[i as int]@);
        assert(all[i as int] == trim_end(lines_of(lf(text@))[i as int]));
        assert(line@ == all[i as int]);
        let ghost old_views = line_views(trimmed@);
        trimmed.push(line);
        assert(line_views(trimmed@) =~= old_views.push(all[i as int]));
        assert(all.take(i + 1) =~= all.take(i as int).push(all[i as int]));
        i += 1;
    }
    assert(all.take(n as int) =~= all);
    let mut keep = trimmed.len();
    while keep > 0 && trimmed[keep - 1].len() == 0
        invariant
            keep <= trimmed@.len(),
            line_views(trimmed@) == all,
            drop_blank_tail(all) == drop_blank_tail(all.take(keep as int)),
        decreases keep,
    {
        assert(all.take(keep as int).drop_last() =~= all.take(keep - 1));
        keep -= 1;
    }
    let ghost kept = all.take(keep as int);
    assert(drop_blank_tail(kept) == kept);
    let mut out: Vec<char> = Vec::new();
    let mut k: usize = 0;
    while k < keep
        invariant
            keep <= trimmed@.len(),
            line_views(trimmed@) == all,
            kept == all.take(keep as int),
            k <= keep,
            out@ == join_lines(kept.take(k as int)),
        decreases keep - k,
    {
        let line = &trimmed[k];
        assert(kept.take(k + 1).drop_last() =~= kept.take(k as int));
        if k > 0 {
            out.push('\n');
        }
        let ghost start = out@;
        let m = line.len();
        let mut j: usize = 0;
        while j < m
            invariant
                m == line@.len(),
                j <= m,
                out@ == start + line@.take(j as int),
            decreases m - j,
        {
            out.push(line[j]);
            assert(out@ =~= start + line@.take(j + 1));
            j += 1;
        }
        assert(line@.take(m as int) =~= line@);
        assert(kept.take(k + 1).last() == line@);
        if k == 0 {
            assert(out@ =~= join_lines(kept.take(1)));
        } else {
            assert(out@ =~= join_lines(kept.take(k + 1)));
        }
        k += 1;
    }
    assert(kept.take(keep as int) =~= kept);
    out.push('\n');
    out
}

/// `s` holds no character `c`.
pub open spec fn free_of(s: Seq<char>, c: char) -> bool {
    forall|i: int| 0 <= i < s.len() ==> s[i] != c
}

pub(crate) proof fn lemma_lf_free_of_cr(text: Seq<char>)
    ensures
        free_of(lf(text), '\r'),
    decreases text.len(),
{
    if text.len() > 0 {
        if text[0] == '\r' && text.len() >= 2 && text[1] == '\n' {
            lemma_lf_free_of_cr(text.skip(2));
        } else {
            lemma_lf_free_of_cr(text.skip(1));
        }
    }
}

pub(crate) proof fn lemma_lf_identity(text: Seq<char>)
    requires
        free_of(text, '\r'),
    ensures
        lf(text) == text,
    decreases text.len(),
{
    if text.len() > 0 {
        lemma_lf_identity(text.skip(1));
        assert(seq![text[0]] + text.skip(1) =~= text);
    }
}

/// Every piece of `lines_of(text)` is free of LF, and free of CR when
/// `text` is.
proof fn lemma_pieces_free(text: Seq<char>)
    ensures
        lines_of(text).len() >= 1,
        forall|k: int| 0 <= k < lines_of(text).len() ==> free_of(#[trigger] lines_of(text)[k], '\n'),
        free_of(text, '\r') ==> forall|k: int|
            0 <= k < lines_of(text).len() ==> free_of(#[trigger] lines_of(text)[k], '\r'),
    decreases text.len(),
{
    if text.len() > 0 {
        let rest = text.drop_last();
        lemma_pieces_free(rest);
        if free_of(text, '\r') {
            assert forall|i: int| 0 <= i < rest.len() implies rest[i] != '\r' by {
                assert(rest[i] == text[i]);
            }
        }
    }
}

/// A text without LF is a single piece.
proof fn lemma_single_piece(text: Seq<char>)
    requires
        free_of(text, '\n'),
    ensures
        lines_of(text) == seq![text],
    decreases text.len(),
{
    if text.len() > 0 {
        let rest = text.drop_last();
        assert(free_of(rest, '\n')) by {
            assert forall|i: int| 0 <= i < rest.len() implies rest[i] != '\n' by {
                assert(rest[i] == text[i]);
            }
        }
        lemma_single_piece(rest);
        assert(text.last() != '\n');
        assert(rest.push(text.last()) =~= text);
        assert(seq![rest].update(0, rest.push(text.last())) =~= seq![text]);
    } else {
        assert(text =~= Seq::<char>::empty());
    }
}

/// Splitting after an LF: the pieces of `a + LF + b` (with `b` free of LF)
/// are those of `a` followed by `b`.
proof fn lemma_pieces_after_lf(a: Seq<char>, b: Seq<char>)
    requires
        free_of(b, '\n'),
    ensures
        lines_of(a + seq!['\n'] + b) == lines_of(a).push(b),
    decreases b.len(),
{
    let whole = a + seq!['\n'] + b;
    if b.len() == 0 {
        assert(whole.drop_last() =~= a);
        assert(whole.last() == '\n');
        assert(b =~= Seq::<char>::empty());
    } else {
        let shorter = b.drop_last();
        assert(free_of(shorter, '\n')) by {
            assert forall|i: int| 0 <= i < shorter.len() implies shorter[i] != '\n' by {
                assert(shorter[i] == b[i]);
            }
        }
        lemma_pieces_after_lf(a, shorter);
        assert(whole.drop_last() =~= a + seq!['\n'] + shorter);
        assert(whole.last() == b.last());
        assert(b.last() != '\n');
        assert(shorter.push(b.last()) =~= b);
        assert(lines_of(a).push(shorter).update(lines_of(a).len() as int, shorter.push(b.last())) =~= lines_of(
            a,
        ).push(b));
    }
}

/// Joining pieces free of LF and splitting again gives the pieces back.
proof fn lemma_split_join(lines: Seq<Seq<char>>)
    requires
        lines.len() >= 1,
        forall|k: int| 0 <= k < lines.len() ==> free_of(#[trigger] lines[k], '\n'),
    ensures
        lines_of(join_lines(lines)) == lines,
    decreases lines.len(),
{
    if lines.len() == 1 {
        lemma_single_piece(lines[0]);
        assert(seq![lines[0]] =~= lines);
    } else {
        let rest = lines.drop_last();
        lemma_split_join(rest);
        assert(free_of(lines.last(), '\n'));
        lemma_pieces_after_lf(join_lines(rest), lines.last());
        assert(rest.push(lines.last()) =~= lines);
    }
}

proof fn lemma_trim_end_prefix(line: Seq<char>)
    ensures
        trim_end(line).len() <= line.len(),
        trim_end(line) == line.take(trim_end(line).len() as int),
        trim_end(trim_end(line)) == trim_end(line),
        trim_end(line).len() > 0 ==> !is_white_space(trim_end(line).last()),
    decreases line.len(),
{
    if line.len() > 0 && is_white_space(line.last()) {
        lemma_trim_end_prefix(line.drop_last());
        let t = trim_end(line.drop_last());
        assert(line.drop_last().take(t.len() as int) =~= line.take(t.len() as int));
    } else {
        assert(line.take(line.len() as int) =~= line);
    }
}

proof fn lemma_free_of_prefix(s: Seq<char>, n: int, c: char)
    requires
        0 <= n <= s.len(),
        free_of(s, c),
    ensures
        free_of(s.take(n), c),
{
    assert forall|i: int| 0 <= i < n implies s.take(n)[i] != c by {
        assert(s.take(n)[i] == s[i]);
    }
}

proof fn lemma_drop_blank_tail(lines: Seq<Seq<char>>)
    ensures
        drop_blank_tail(lines).len() <= lines.len(),
        drop_blank_tail(lines) == lines.take(drop_blank_tail(lines).len() as int),
        drop_blank_tail(lines).len() > 0 ==> drop_blank_tail(lines).last().len() > 0,
    decreases lines.len(),
{
    if lines.len() > 0 && lines.last().len() == 0 {
        lemma_drop_blank_tail(lines.drop_last());
        let kept = drop_blank_tail(lines.drop_last());
        assert(lines.drop_last().take(kept.len() as int) =~= lines.take(kept.len() as int));
    } else {
        assert(lines.take(lines.len() as int) =~= lines);
    }
}

proof fn lemma_join_last(lines: Seq<Seq<char>>)
    requires
        lines.len() >= 1,
        lines.last().len() > 0,
    ensures
        join_lines(lines).len() >= 1,
        join_lines(lines).last() == lines.last().last(),
{
}

proof fn lemma_join_free_of(lines: Seq<Seq<char>>, c: char)
    requires
        c != '\n',
        forall|k: int| 0 <= k < lines.len() ==> free_of(#[trigger] lines[k], c),
    ensures
        free_of(join_lines(lines), c),
    decreases lines.len(),
{
    if lines.len() > 1 {
        let rest = lines.drop_last();
        lemma_join_free_of(rest, c);
        let joined = join_lines(rest) + seq!['\n'] + lines.last();
        assert(free_of(lines.last(), c));
        assert forall|i: int| 0 <= i < joined.len() implies joined[i] != c by {
            if i < join_lines(rest).len() {
                assert(joined[i] == join_lines(rest)[i]);
            } else if i > join_lines(rest).len() {
                assert(joined[i] == lines.last()[i - join_lines(rest).len() - 1]);
            }
        }
    }
}

/// The canonical form uses LF line ends only, ends with exactly one LF
/// (no blank line before it), and is its own canonical form.
pub proof fn lemma_canonical_form(text: Seq<char>)
    ensures
        free_of(canonical_text(text), '\r'),
        canonical_text(text).len() >= 1,
        canonical_text(text).last() == '\n',
        canonical_text(text).len() >= 2 ==> canonical_text(text)[canonical_text(text).len() - 2] != '\n',
        canonical_text(canonical_text(text)) == canonical_text(text),
{
    let pieces = lines_of(lf(text));
    let trimmed = pieces.map_values(|l: Seq<char>| trim_end(l));
    let kept = drop_blank_tail(trimmed);
    let out = canonical_text(text);
    lemma_lf_free_of_cr(text);
    lemma_pieces_free(lf(text));
    lemma_drop_blank_tail(trimmed);
    assert forall|k: int| 0 <= k < kept.len() implies {
        &&& free_of(#[trigger] kept[k], '\n')
        &&& free_of(kept[k], '\r')
        &&& trim_end(kept[k]) == kept[k]
    } by {
        assert(kept[k] == trimmed[k]);
        assert(trimmed[k] == trim_end(pieces[k]));
        lemma_trim_end_prefix(pieces[k]);
        lemma_free_of_prefix(pieces[k], trim_end(pieces[k]).len() as int, '\n');
        lemma_free_of_prefix(pieces[k], trim_end(pieces[k]).len() as int, '\r');
    }
    lemma_join_free_of(kept, '\r');
    let joined = join_lines(kept);
    assert(out == joined + seq!['\n']);
    assert(free_of(out, '\r')) by {
        assert forall|i: int| 0 <= i < out.len() implies out[i] != '\r' by {
            if i < joined.len() {
                assert(out[i] == joined[i]);
            }
        }
    }
    if kept.len() >= 1 {
        lemma_join_last(kept);
        assert(out[out.len() - 2] == joined.last());
    } else {
        assert(joined.len() == 0);
    }
    // The canonical form of the canonical form.
    lemma_lf_identity(out);
    let again = lines_of(out);
    if kept.len() >= 1 {
        lemma_split_join(kept);
        assert(out.drop_last() =~= joined);
        assert(again == kept.push(Seq::<char>::empty()));
        let retrimmed = again.map_values(|l: Seq<char>| trim_end(l));
        assert(retrimmed =~= kept.push(Seq::<char>::empty()));
        assert(retrimmed.drop_last() =~= kept);
        assert(drop_blank_tail(kept) == kept);
        assert(drop_blank_tail(retrimmed) == kept);
    } else {
        assert(out =~= seq!['\n']);
        assert(out.drop_last() =~= Seq::<char>::empty());
        assert(out.last() == '\n');
        assert(lines_of(Seq::<char>::empty()) == seq![Seq::<char>::empty()]);
        assert(again == seq![Seq::<char>::empty()].push(Seq::<char>::empty()));
        assert(again =~= seq![Seq::<char>::empty(), Seq::<char>::empty()]);
        let retrimmed = again.map_values(|l: Seq<char>| trim_end(l));
        assert(trim_end(Seq::<char>::empty()) == Seq::<char>::empty());
        assert(retrimmed =~= seq![Seq::<char>::empty(), Seq::<char>::empty()]);
        let one = retrimmed.drop_last();
        assert(one =~= seq![Seq::<char>::empty()]);
        let none = one.drop_last();
        assert(none =~= Seq::<Seq<char>>::empty());
        assert(drop_blank_tail(none) == none);
        assert(drop_blank_tail(one) == drop_blank_tail(none));
        assert(drop_blank_tail(retrimmed) == drop_blank_tail(one));
        assert(drop_blank_tail(retrimmed) =~= Seq::<Seq<char>>::empty());
    }
}

} // verus!
