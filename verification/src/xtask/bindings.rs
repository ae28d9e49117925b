//! Freshness rules of the generated TypeScript bindings: the export is
//! normalized to LF with one final newline, then either compared with the
//! committed file (check mode) or written only when it changed.
use vstd::prelude::*;
use vstd::utf8::{decode_utf8, encode_utf8, valid_utf8};
use crate::config::text_form::{free_of, lemma_lf_free_of_cr, lemma_lf_identity, lf};
use crate::config::codec::utf8_text;
use crate::text::{concat3, string_from_chars};

verus! {

/// The committed bindings, relative to the repository root.
pub const GENERATED_PATH: &'static str = "src/types/generated/bindings.ts";

/// What to do after a stale or missing check.
pub const CHECK_HINT: &'static str = "run `cargo xtask bindings` and commit the generated result";

/// `text` in LF form, ending with exactly the newlines it had plus one if it
/// had none at the end.
pub open spec fn normalized_text(text: Seq<char>) -> Seq<char> {
    let t = lf(text);
    if t.len() > 0 && t.last() == '\n' { t } else { t.push('\n') }
}

/// Normalizes exported TypeScript: CRLF and lone CR become LF and the text
/// ends with a newline. Non-UTF-8 output is refused.
pub fn normalize_generated(bytes: &[u8]) -> (normalized: Result<Vec<u8>, String>)
    ensures
        match normalized {
            Ok(out) => valid_utf8(bytes@) && out@ == encode_utf8(normalized_text(decode_utf8(bytes@))),
            Err(_) => !valid_utf8(bytes@),
        },
{
    let text = match utf8_text(bytes) {
        Some(text) => text,
        None => return Err(String::from_str("binding export stage produced non-UTF-8 TypeScript")),
    };
    let n = text.unicode_len();
    let mut out: Vec<char> = Vec::new();
    let mut i: usize = 0;
    assert(text@.skip(0) =~= text@);
    assert(out@ + lf(text@) =~= lf(text@));
    while i < n
        invariant
            n == text@.len(),
            i <= n,
            out@ + lf(text@.skip(i as int)) == lf(text@),
        decreases n - i,
    {
        let ghost rest = text@.skip(i as int);
        let c = text.get_char(i);
        if c == '\r' && i + 1 < n && text.get_char(i + 1) == '\n' {
            assert(rest.skip(2) =~= text@.skip(i + 2));
            out.push('\n');
            i += 2;
        } else if c == '\r' {
            assert(rest.skip(1) =~= text@.skip(i + 1));
            out.push('\n');
            i += 1;
        } else {
            assert(rest.skip(1) =~= text@.skip(i + 1));
            out.push(c);
            i += 1;
        }
    }
    assert(text@.skip(n as int) =~= Seq::<char>::empty());
    assert(out@ + Seq::<char>::empty() =~= out@);
    let k = out.len();
    if k == 0 || out[k - 1] != '\n' {
        out.push('\n');
    }
    let normalized = string_from_chars(&out);
    Ok(normalized.as_str().as_bytes_vec())
}

/// The outcome of comparing the generated bindings with the committed file.
#[derive(Clone, Copy, Debug, PartialEq, Eq, Structural)]
pub enum SyncDecision {
    /// Check mode: the committed file is current.
    Current,
    /// Check mode: the committed file differs.
    Stale,
    /// Check mode: there is no committed file.
    Missing,
    /// Write mode: the committed file already holds the output.
    Unchanged,
    /// Write mode: the output must be written.
    Write,
}

/// The decision for `check` mode, the committed bytes (if any) and the
/// normalized output.
pub open spec fn sync_decision_spec(check: bool, existing: Option<Seq<u8>>, generated: Seq<u8>) -> SyncDecision {
    if check {
        match existing {
            Some(bytes) => if bytes == generated { SyncDecision::Current } else { SyncDecision::Stale },
            None => SyncDecision::Missing,
        }
    } else if existing == Some(generated) {
        SyncDecision::Unchanged
    } else {
        SyncDecision::Write
    }
}

fn same_bytes(a: &Vec<u8>, b: &Vec<u8>) -> (same: bool)
    ensures
        same == (a@ == b@),
{
    if a.len() != b.len() {
        return false;
    }
    let mut i: usize = 0;
    while i < a.len()
        invariant
            a@.len() == b@.len(),
            i <= a@.len(),
            forall|j: int| 0 <= j < i ==> a@[j] == b@[j],
        decreases a@.len() - i,
    {
        if a[i] != b[i] {
            return false;
        }
        i += 1;
    }
    assert(a@ =~= b@);
    true
}

/// Decides what the bindings task does; a check never writes.
pub fn sync_decision(check: bool, existing: &Option<Vec<u8>>, generated: &Vec<u8>) -> (decision: SyncDecision)
    ensures
        decision == sync_decision_spec(
            check,
            match existing {
                Some(b) => Some(b@),
                None => None,
            },
            generated@,
        ),
{
    match existing {
        Some(bytes) => {
            let same = same_bytes(bytes, generated);
            if check {
                if same { SyncDecision::Current } else { SyncDecision::Stale }
            } else if same {
                SyncDecision::Unchanged
            } else {
                SyncDecision::Write
            }
        },
        None => if check { SyncDecision::Missing } else { SyncDecision::Write },
    }
}

/// The refusal of a check whose target is `state` ("stale" or "missing").
pub fn freshness_failure(target: &str, state: &str) -> (message: String)
    ensures
        message@ == "binding freshness check failed: "@ + target@ + " is "@ + state@ + "; "@ + CHECK_HINT@,
{
    let mut message = concat3("binding freshness check failed: ", target, " is ");
    message.append(state);
    message.append("; ");
    message.append(CHECK_HINT);
    message
}

/// Normalizing twice gives what normalizing once gave: a second
/// generation of unchanged bindings is byte-identical to the first.
pub proof fn lemma_normalization_is_stable(text: Seq<char>)
    ensures
        normalized_text(normalized_text(text)) == normalized_text(text),
        free_of(normalized_text(text), '\r'),
        normalized_text(text).len() > 0 && normalized_text(text).last() == '\n',
{
    let t = lf(text);
    lemma_lf_free_of_cr(text);
    let once = normalized_text(text);
    assert(free_of(once, '\r')) by {
        assert forall|i: int| 0 <= i < once.len() implies once[i] != '\r' by {
            if i < t.len() {
                assert(once[i] == t[i]);
            }
        }
    }
    lemma_lf_identity(once);
}

/// A check never writes: it only reports the bindings current, stale or
/// missing.
pub proof fn lemma_check_never_writes(existing: Option<Seq<u8>>, generated: Seq<u8>)
    ensures
        sync_decision_spec(true, existing, generated) != SyncDecision::Write,
        sync_decision_spec(true, existing, generated) != SyncDecision::Unchanged,
{
}

} // verus!
