//! Validation of the codec fixture manifest: eight fixtures, one per
//! required input scheme, fetched only over HTTPS into portable file names
//! with exact sizes and SHA-256 digests.
use vstd::prelude::*;
use sha2::Digest;
use crate::config::text_form::{blank, is_blank};
use crate::text::{concat3, decimal, decimal_string, ends_with, has_suffix, str_eq};

verus! {

/// Version of the manifest format.
pub const MANIFEST_SCHEMA_VERSION: u32 = 1;

/// Largest accepted archive, in bytes (16 MiB).
pub const MAX_ARCHIVE_BYTES: usize = 16777216;

/// How many fixtures the manifest lists.
pub const REQUIRED_FIXTURE_COUNT: usize = 8;

/// The input schemes that must each have exactly one fixture.
pub open spec fn required_scheme_names() -> Seq<Seq<char>> {
    seq!["wubi86"@, "wubi98"@, "wubi06"@, "wubi091"@, "wubi092"@, "zhengma"@, "xiaohe"@, "biaoxingma"@]
}

/// The input schemes that must each have exactly one fixture, in order.
pub fn required_schemes() -> (schemes: Vec<&'static str>)
    ensures
        schemes@.map_values(|s: &str| s@) == required_scheme_names(),
{
    let schemes = vec!["wubi86", "wubi98", "wubi06", "wubi091", "wubi092", "zhengma", "xiaohe", "biaoxingma"];
    assert(schemes@.map_values(|s: &str| s@) =~= required_scheme_names());
    schemes
}

/// One fixture of the manifest.
#[derive(Clone, Debug, PartialEq, Eq)]
pub struct FixtureEntry {
    pub id: String,
    pub scheme: String,
    pub name: String,
    pub url: String,
    pub archive_file: String,
    pub lex_file: String,
    pub archive_size: usize,
    pub archive_sha256: String,
    pub lex_size: usize,
    pub lex_sha256: String,
    pub source: String,
    pub license_note: String,
}

/// The fixture manifest.
#[derive(Clone, Debug)]
pub struct FixtureManifest {
    pub schema_version: u32,
    pub fixtures: Vec<FixtureEntry>,
}

/// The parts of a parsed URL that the rules read: scheme, whether there is
/// a host, user name, whether there is a password and a fragment.
pub struct UrlParts {
    pub scheme: String,
    pub has_host: bool,
    pub username: String,
    pub has_password: bool,
    pub has_fragment: bool,
}

/// What `url::Url::parse` makes of `text` (scheme, host present, user name,
/// password present, fragment present), or `None` where it fails.
pub uninterp spec fn parsed_url(text: Seq<char>) -> Option<(Seq<char>, bool, Seq<char>, bool, bool)>;

/// Parses `text` with `url::Url::parse` and reads the parts the rules need.
#[verifier::external_body]
fn parse_url(text: &str) -> (parts: Option<UrlParts>)
    ensures
        match parts {
            Some(p) => parsed_url(text@) == Some((p.scheme@, p.has_host, p.username@, p.has_password, p.has_fragment)),
            None => parsed_url(text@) is None,
        },
{
    let url = url::Url::parse(text).ok()?;
    Some(UrlParts {
        scheme: url.scheme().to_owned(),
        has_host: url.host_str().is_some(),
        username: url.username().to_owned(),
        has_password: url.password().is_some(),
        has_fragment: url.fragment().is_some(),
    })
}

/// An absolute HTTPS URL with a host and without credentials or fragment.
pub open spec fn secure_url(url: Seq<char>) -> bool {
    match parsed_url(url) {
        Some((scheme, has_host, username, has_password, has_fragment)) => scheme == "https"@ && has_host
            && username.len() == 0 && !has_password && !has_fragment,
        None => false,
    }
}

/// A character of a portable fixture file name.
pub open spec fn file_name_char(c: char) -> bool {
    ('a' <= c <= 'z') || ('0' <= c <= '9') || c == '.' || c == '_' || c == '-'
}

/// A lowercase portable file name (no separators, not `.` or `..`) that
/// ends with `suffix`.
pub open spec fn portable_file_name(value: Seq<char>, suffix: Seq<char>) -> bool {
    &&& value.len() > 0
    &&& forall|i: int| 0 <= i < value.len() ==> file_name_char(#[trigger] value[i])
    &&& value != "."@
    &&& value != ".."@
    &&& has_suffix(value, suffix)
}

/// 64 lowercase hexadecimal characters.
pub open spec fn hex_digest(value: Seq<char>) -> bool {
    value.len() == 64 && forall|i: int| 0 <= i < value.len() ==> ('0' <= #[trigger] value[i] <= '9' || 'a' <= value[i] <= 'f')
}

/// Whether one entry satisfies every rule on its own.
pub open spec fn entry_valid(e: FixtureEntry, max_decoded_bytes: usize) -> bool {
    &&& e.id@.len() > 0
    &&& !blank(e.name@)
    &&& !blank(e.source@)
    &&& !blank(e.license_note@)
    &&& secure_url(e.url@)
    &&& portable_file_name(e.archive_file@, ".lex.lzma"@)
    &&& portable_file_name(e.lex_file@, ".lex"@)
    &&& 1 <= e.archive_size <= MAX_ARCHIVE_BYTES
    &&& 1 <= e.lex_size <= max_decoded_bytes
    &&& hex_digest(e.archive_sha256@)
    &&& hex_digest(e.lex_sha256@)
}

/// The file paths of the entries, two per entry, archive first.
pub open spec fn manifest_paths(fixtures: Seq<FixtureEntry>) -> Seq<Seq<char>> {
    Seq::new(2 * fixtures.len(), |k: int| if k % 2 == 0 { fixtures[k / 2].archive_file@ } else { fixtures[k / 2].lex_file@ })
}

/// Whether the manifest satisfies every rule: the current version, eight
/// valid entries, distinct ids, distinct schemes, distinct paths, and the
/// schemes exactly the required ones.
pub open spec fn manifest_valid(m: FixtureManifest, max_decoded_bytes: usize) -> bool {
    let f = m.fixtures@;
    &&& m.schema_version == MANIFEST_SCHEMA_VERSION
    &&& f.len() == REQUIRED_FIXTURE_COUNT
    &&& forall|i: int| 0 <= i < f.len() ==> entry_valid(#[trigger] f[i], max_decoded_bytes)
    &&& forall|i: int, j: int| 0 <= i < j < f.len() ==> f[i].id@ != f[j].id@
    &&& forall|i: int, j: int| 0 <= i < j < f.len() ==> f[i].scheme@ != f[j].scheme@
    &&& forall|i: int, j: int| 0 <= i < j < 2 * f.len() ==> manifest_paths(f)[i] != manifest_paths(f)[j]
    &&& forall|i: int| 0 <= i < f.len() ==> required_scheme_names().contains(#[trigger] f[i].scheme@)
}

/// `fixture {id} manifest validation stage failed: {detail}`.
pub open spec fn manifest_message(entry: FixtureEntry, detail: Seq<char>) -> Seq<char> {
    "fixture "@ + entry.id@ + " manifest validation stage failed: "@ + detail
}

/// `fixture {id} manifest validation stage failed: {detail}`.
pub fn manifest_error(entry: &FixtureEntry, detail: &str) -> (message: String)
    ensures
        message@ == manifest_message(*entry, detail@),
{
    let mut message = concat3("fixture ", entry.id.as_str(), " manifest validation stage failed: ");
    message.append(detail);
    message
}

/// `fixture {id} ({name}) {stage} stage failed: {detail}`.
pub open spec fn fixture_message(entry: FixtureEntry, stage: Seq<char>, detail: Seq<char>) -> Seq<char> {
    "fixture "@ + entry.id@ + " ("@ + entry.name@ + ") "@ + stage + " stage failed: "@ + detail
}

/// `fixture {id} ({name}) {stage} stage failed: {detail}`.
pub fn fixture_error(entry: &FixtureEntry, stage: &str, detail: &str) -> (message: String)
    ensures
        message@ == fixture_message(*entry, stage@, detail@),
{
    let mut message = concat3("fixture ", entry.id.as_str(), " (");
    message.append(entry.name.as_str());
    message.append(") ");
    message.append(stage);
    message.append(" stage failed: ");
    message.append(detail);
    message
}


/// Checks that a fixture path is a portable file name with `suffix`.
pub fn validate_file_name(entry: &FixtureEntry, value: &str, suffix: &str) -> (checked: Result<(), String>)
    ensures
        checked is Ok <==> portable_file_name(value@, suffix@),
        checked matches Err(m) ==> m@ == manifest_message(
            *entry,
            "fixture paths must be lowercase portable file names with the expected suffix"@,
        ),
{
    proof {
        reveal_strlit(".");
        reveal_strlit("..");
    }
    let n = value.unicode_len();
    let mut allowed = n > 0;
    let mut i: usize = 0;
    while i < n
        invariant
            n == value@.len(),
            i <= n,
            allowed == (n > 0 && forall|j: int| 0 <= j < i ==> file_name_char(#[trigger] value@[j])),
        decreases n - i,
    {
        let c = value.get_char(i);
        if !(('a' <= c && c <= 'z') || ('0' <= c && c <= '9') || c == '.' || c == '_' || c == '-') {
            assert(!file_name_char(value@[i as int]));
            allowed = false;
        }
        i += 1;
    }
    if !allowed || str_eq(value, ".") || str_eq(value, "..") || !ends_with(value, suffix) {
        return Err(manifest_error(entry, "fixture paths must be lowercase portable file names with the expected suffix"));
    }
    Ok(())
}

/// Checks that a size is in `1..=maximum`.
pub fn validate_size(entry: &FixtureEntry, field: &str, value: usize, maximum: usize) -> (checked: Result<(), String>)
    ensures
        checked is Ok <==> 1 <= value <= maximum,
        checked matches Err(m) ==> m@ == manifest_message(
            *entry,
            field@ + " must be in 1..="@ + decimal(maximum as nat) + ", got "@ + decimal(value as nat),
        ),
{
    if value == 0 || value > maximum {
        let mut detail = concat3(field, " must be in 1..=", decimal_string(maximum as u64).as_str());
        detail.append(", got ");
        detail.append(decimal_string(value as u64).as_str());
        return Err(manifest_error(entry, detail.as_str()));
    }
    Ok(())
}

/// Checks that a digest is 64 lowercase hexadecimal characters.
pub fn validate_digest(entry: &FixtureEntry, field: &str, value: &str) -> (checked: Result<(), String>)
    ensures
        checked is Ok <==> hex_digest(value@),
        checked matches Err(m) ==> m@ == manifest_message(*entry, field@ + " must be 64 lowercase hexadecimal characters"@),
{
    let n = value.unicode_len();
    let mut ok = n == 64;
    let mut i: usize = 0;
    while i < n
        invariant
            n == value@.len(),
            i <= n,
            ok == (n == 64 && forall|j: int| 0 <= j < i ==> ('0' <= #[trigger] value@[j] <= '9' || 'a' <= value@[j] <= 'f')),
        decreases n - i,
    {
        let c = value.get_char(i);
        if !(('0' <= c && c <= '9') || ('a' <= c && c <= 'f')) {
            ok = false;
        }
        i += 1;
    }
    if !ok {
        let detail = crate::text::concat2(field, " must be 64 lowercase hexadecimal characters");
        return Err(manifest_error(entry, detail.as_str()));
    }
    Ok(())
}

/// The refusal of the first rule an entry breaks, if any.
pub open spec fn entry_refusal(e: FixtureEntry, max_decoded_bytes: usize) -> Option<Seq<char>> {
    if e.id@.len() == 0 || blank(e.name@) || blank(e.source@) || blank(e.license_note@) {
        Some(manifest_message(e, "text fields must be nonempty"@))
    } else if parsed_url(e.url@) is None {
        Some(manifest_message(e, "URL must be a valid absolute HTTPS URL"@))
    } else if !secure_url(e.url@) {
        Some(manifest_message(e, "URL must use HTTPS without credentials or a fragment"@))
    } else if !portable_file_name(e.archive_file@, ".lex.lzma"@) || !portable_file_name(e.lex_file@, ".lex"@) {
        Some(manifest_message(e, "fixture paths must be lowercase portable file names with the expected suffix"@))
    } else if !(1 <= e.archive_size <= MAX_ARCHIVE_BYTES) {
        Some(
            manifest_message(
                e,
                "archive_size"@ + " must be in 1..="@ + decimal(MAX_ARCHIVE_BYTES as nat) + ", got "@ + decimal(
                    e.archive_size as nat,
                ),
            ),
        )
    } else if !(1 <= e.lex_size <= max_decoded_bytes) {
        Some(
            manifest_message(
                e,
                "lex_size"@ + " must be in 1..="@ + decimal(max_decoded_bytes as nat) + ", got "@ + decimal(
                    e.lex_size as nat,
                ),
            ),
        )
    } else if !hex_digest(e.archive_sha256@) {
        Some(manifest_message(e, "archive_sha256"@ + " must be 64 lowercase hexadecimal characters"@))
    } else if !hex_digest(e.lex_sha256@) {
        Some(manifest_message(e, "lex_sha256"@ + " must be 64 lowercase hexadecimal characters"@))
    } else {
        None
    }
}

/// Checks every rule of one entry, in order: text fields, URL, file names,
/// sizes, digests.
pub fn validate_entry(entry: &FixtureEntry, max_decoded_bytes: usize) -> (checked: Result<(), String>)
    ensures
        checked is Ok <==> entry_valid(*entry, max_decoded_bytes),
        refused_as(checked, entry_refusal(*entry, max_decoded_bytes)),
{
    if entry.id.unicode_len() == 0 || is_blank(entry.name.as_str()) || is_blank(entry.source.as_str())
        || is_blank(entry.license_note.as_str()) {
        return Err(manifest_error(entry, "text fields must be nonempty"));
    }
    let secure = match parse_url(entry.url.as_str()) {
        None => return Err(manifest_error(entry, "URL must be a valid absolute HTTPS URL")),
        Some(parts) => str_eq(parts.scheme.as_str(), "https") && parts.has_host && parts.username.unicode_len() == 0
            && !parts.has_password && !parts.has_fragment,
    };
    if !secure {
        return Err(manifest_error(entry, "URL must use HTTPS without credentials or a fragment"));
    }
    match validate_file_name(entry, entry.archive_file.as_str(), ".lex.lzma") {
        Err(e) => return Err(e),
        Ok(()) => {},
    }
    match validate_file_name(entry, entry.lex_file.as_str(), ".lex") {
        Err(e) => return Err(e),
        Ok(()) => {},
    }
    match validate_size(entry, "archive_size", entry.archive_size, MAX_ARCHIVE_BYTES) {
        Err(e) => return Err(e),
        Ok(()) => {},
    }
    match validate_size(entry, "lex_size", entry.lex_size, max_decoded_bytes) {
        Err(e) => return Err(e),
        Ok(()) => {},
    }
    match validate_digest(entry, "archive_sha256", entry.archive_sha256.as_str()) {
        Err(e) => return Err(e),
        Ok(()) => {},
    }
    validate_digest(entry, "lex_sha256", entry.lex_sha256.as_str())
}

/// Whether `text` equals one of the first `n` strings.
fn seen(items: &Vec<&str>, n: usize, text: &str) -> (found: bool)
    requires
        n <= items@.len(),
    ensures
        found == exists|k: int| 0 <= k < n && items@[k]@ == text@,
{
    let mut k: usize = 0;
    while k < n
        invariant
            n <= items@.len(),
            k <= n,
            forall|j: int| 0 <= j < k ==> items@[j]@ != text@,
        decreases n - k,
    {
        if str_eq(items[k], text) {
            return true;
        }
        k += 1;
    }
    false
}

/// The refusal of the first entry, from the `i`-th on, that breaks a rule
/// of its own or repeats an earlier id, scheme or path.
pub open spec fn entries_refusal(f: Seq<FixtureEntry>, max_decoded_bytes: usize, i: int) -> Option<Seq<char>>
    decreases f.len() - i,
{
    if i < 0 || i >= f.len() {
        None
    } else if entry_refusal(f[i], max_decoded_bytes) is Some {
        entry_refusal(f[i], max_decoded_bytes)
    } else if exists|k: int| 0 <= k < i && f[k].id@ == f[i].id@ {
        Some(manifest_message(f[i], "duplicate fixture id"@))
    } else if exists|k: int| 0 <= k < i && f[k].scheme@ == f[i].scheme@ {
        Some(manifest_message(f[i], "duplicate fixture scheme"@))
    } else if exists|k: int| 0 <= k < 2 * i && manifest_paths(f)[k] == f[i].archive_file@ {
        Some(manifest_message(f[i], "duplicate fixture path"@))
    } else if exists|k: int| 0 <= k < 2 * i + 1 && manifest_paths(f)[k] == f[i].lex_file@ {
        Some(manifest_message(f[i], "duplicate fixture path"@))
    } else {
        entries_refusal(f, max_decoded_bytes, i + 1)
    }
}

/// The refusal of a manifest: a wrong version, a wrong number of entries,
/// the first faulty entry, or a scheme set other than the required one.
pub open spec fn manifest_refusal(m: FixtureManifest, max_decoded_bytes: usize) -> Option<Seq<char>> {
    let f = m.fixtures@;
    if m.schema_version != MANIFEST_SCHEMA_VERSION {
        Some(
            "fixture manifest validation stage failed: expected schema version 1, got "@ + decimal(
                m.schema_version as nat,
            ),
        )
    } else if f.len() != REQUIRED_FIXTURE_COUNT {
        Some("fixture manifest validation stage failed: expected 8 fixtures, got "@ + decimal(f.len()))
    } else if entries_refusal(f, max_decoded_bytes, 0) is Some {
        entries_refusal(f, max_decoded_bytes, 0)
    } else if exists|j: int| 0 <= j < f.len() && !required_scheme_names().contains(#[trigger] f[j].scheme@) {
        Some(
            "fixture manifest validation stage failed: scheme set must be exactly wubi86, wubi98, wubi06, wubi091, wubi092, zhengma, xiaohe, and biaoxingma"@,
        )
    } else {
        None
    }
}

/// Checks the whole manifest. Lex files may hold at most
/// `max_decoded_bytes` bytes (the codec's input limit).
pub fn validate_manifest(manifest: &FixtureManifest, max_decoded_bytes: usize) -> (checked: Result<(), String>)
    ensures
        checked is Ok <==> manifest_valid(*manifest, max_decoded_bytes),
        refused_as(checked, manifest_refusal(*manifest, max_decoded_bytes)),
{
    let ghost f = manifest.fixtures@;
    if manifest.schema_version != MANIFEST_SCHEMA_VERSION {
        let mut message = String::from_str(
            "fixture manifest validation stage failed: expected schema version 1, got ",
        );
        message.append(decimal_string(manifest.schema_version as u64).as_str());
        return Err(message);
    }
    let n = manifest.fixtures.len();
    if n != REQUIRED_FIXTURE_COUNT {
        let mut message = String::from_str("fixture manifest validation stage failed: expected 8 fixtures, got ");
        message.append(decimal_string(n as u64).as_str());
        return Err(message);
    }
    let mut ids: Vec<&str> = Vec::new();
    let mut schemes: Vec<&str> = Vec::new();
    let mut paths: Vec<&str> = Vec::new();
    let mut i: usize = 0;
    while i < n
        invariant
            n == f.len() == 8,
            f == manifest.fixtures@,
            manifest.schema_version == MANIFEST_SCHEMA_VERSION,
            i <= n,
            ids@.len() == i,
            schemes@.len() == i,
            paths@.len() == 2 * i,
            forall|k: int| 0 <= k < i ==> entry_valid(#[trigger] f[k], max_decoded_bytes),
            forall|k: int| 0 <= k < i ==> (#[trigger] ids@[k])@ == f[k].id@,
            forall|k: int| 0 <= k < i ==> (#[trigger] schemes@[k])@ == f[k].scheme@,
            forall|k: int| 0 <= k < 2 * i ==> (#[trigger] paths@[k])@ == manifest_paths(f)[k],
            forall|a: int, b: int| 0 <= a < b < i ==> f[a].id@ != f[b].id@,
            forall|a: int, b: int| 0 <= a < b < i ==> f[a].scheme@ != f[b].scheme@,
            forall|a: int, b: int| 0 <= a < b < 2 * i ==> manifest_paths(f)[a] != manifest_paths(f)[b],
            entries_refusal(f, max_decoded_bytes, 0) == entries_refusal(f, max_decoded_bytes, i as int),
        decreases n - i,
    {
        let entry = &manifest.fixtures[i];
        match validate_entry(entry, max_decoded_bytes) {
            Err(e) => return Err(e),
            Ok(()) => {},
        }
        assert(f[i as int] == *entry);
        if seen(&ids, i, entry.id.as_str()) {
            proof {
                let k = choose|k: int| 0 <= k < i && ids@[k]@ == entry.id@;
                assert(f[k].id@ == f[i as int].id@);
            }
            return Err(manifest_error(entry, "duplicate fixture id"));
        }
        assert forall|k: int| 0 <= k < i implies f[k].id@ != f[i as int].id@ by {
            assert(ids@[k]@ == f[k].id@);
        }
        ids.push(entry.id.as_str());
        if seen(&schemes, i, entry.scheme.as_str()) {
            proof {
                let k = choose|k: int| 0 <= k < i && schemes@[k]@ == entry.scheme@;
                assert(f[k].scheme@ == f[i as int].scheme@);
            }
            return Err(manifest_error(entry, "duplicate fixture scheme"));
        }
        assert forall|k: int| 0 <= k < i implies f[k].scheme@ != f[i as int].scheme@ by {
            assert(schemes@[k]@ == f[k].scheme@);
        }
        schemes.push(entry.scheme.as_str());
        assert(manifest_paths(f)[2 * i] == entry.archive_file@);
        assert(manifest_paths(f)[2 * i + 1] == entry.lex_file@);
        if seen(&paths, 2 * i, entry.archive_file.as_str()) {
            proof {
                let k = choose|k: int| 0 <= k < 2 * i && paths@[k]@ == entry.archive_file@;
                assert(manifest_paths(f)[k] == manifest_paths(f)[2 * i]);
            }
            return Err(manifest_error(entry, "duplicate fixture path"));
        }
        assert forall|k: int| 0 <= k < 2 * i implies #[trigger] manifest_paths(f)[k] != manifest_paths(f)[2 * i] by {
            assert(paths@[k]@ == manifest_paths(f)[k]);
        }
        paths.push(entry.archive_file.as_str());
        if seen(&paths, 2 * i + 1, entry.lex_file.as_str()) {
            proof {
                let k = choose|k: int| 0 <= k < 2 * i + 1 && paths@[k]@ == entry.lex_file@;
                assert(manifest_paths(f)[k] == manifest_paths(f)[2 * i + 1]);
            }
            return Err(manifest_error(entry, "duplicate fixture path"));
        }
        assert forall|k: int| 0 <= k < 2 * i + 1 implies #[trigger] manifest_paths(f)[k] != manifest_paths(f)[2 * i + 1] by {
            assert(paths@[k]@ == manifest_paths(f)[k]);
        }
        paths.push(entry.lex_file.as_str());
        assert forall|a: int, b: int| 0 <= a < b < 2 * (i + 1) implies manifest_paths(f)[a] != manifest_paths(f)[b] by {
            if b == 2 * i + 1 {
            } else if b == 2 * i {
            }
        }
        i += 1;
    }
    let required = required_schemes();
    assert(required@.map_values(|s: &str| s@).len() == required@.len());
    assert(forall|w: int| 0 <= w < 8 ==> required@.map_values(|s: &str| s@)[w] == (#[trigger] required@[w])@);
    let mut k: usize = 0;
    while k < n
        invariant
            n == f.len() == 8,
            schemes@.len() == 8,
            f == manifest.fixtures@,
            required@.map_values(|s: &str| s@) == required_scheme_names(),
            required@.len() == 8,
            forall|w: int| 0 <= w < 8 ==> required_scheme_names()[w] == (#[trigger] required@[w])@,
            k <= n,
            forall|j: int| 0 <= j < 8 ==> (#[trigger] schemes@[j])@ == f[j].scheme@,
            forall|j: int| 0 <= j < k ==> required_scheme_names().contains(#[trigger] f[j].scheme@),
            manifest.schema_version == MANIFEST_SCHEMA_VERSION,
            entries_refusal(f, max_decoded_bytes, 0) is None,
        decreases n - k,
    {
        if !seen(&required, 8, schemes[k]) {
            assert(!required_scheme_names().contains(f[k as int].scheme@)) by {
                if required_scheme_names().contains(f[k as int].scheme@) {
                    let w = choose|w: int| 0 <= w < required_scheme_names().len() && required_scheme_names()[w] == f[k as int].scheme@;
                    assert(required@[w]@ == required_scheme_names()[w]);
                }
            }
            return Err(String::from_str(
                "fixture manifest validation stage failed: scheme set must be exactly wubi86, wubi98, wubi06, wubi091, wubi092, zhengma, xiaohe, and biaoxingma",
            ));
        }
        assert(required_scheme_names().contains(f[k as int].scheme@)) by {
            let w = choose|w: int| 0 <= w < 8 && required@[w]@ == schemes@[k as int]@;
            assert(required_scheme_names()[w] == required@[w]@);
            assert(required_scheme_names()[w] == f[k as int].scheme@);
        }
        k += 1;
    }
    Ok(())
}

} // verus!

verus! {

/// The value of a run of ASCII digits.
pub open spec fn digits_number(s: Seq<char>) -> int
    decreases s.len(),
{
    if s.len() == 0 {
        0
    } else {
        digits_number(s.drop_last()) * 10 + (s.last() as int - '0' as int)
    }
}

/// The text after an optional leading `+`.
pub open spec fn unsigned_digits(text: Seq<char>) -> Seq<char> {
    if text.len() > 0 && text[0] == '+' { text.skip(1) } else { text }
}

/// What `str::parse::<usize>` accepts: an optional `+`, then one or more
/// ASCII digits whose value fits in `usize`.
pub open spec fn usize_text(text: Seq<char>) -> Option<usize> {
    let digits = unsigned_digits(text);
    if digits.len() >= 1 && (forall|i: int| 0 <= i < digits.len() ==> '0' <= #[trigger] digits[i] <= '9')
        && digits_number(digits) <= usize::MAX {
        Some(digits_number(digits) as usize)
    } else {
        None
    }
}

proof fn lemma_digits_number_grows(s: Seq<char>, k: int)
    requires
        0 <= k <= s.len(),
        forall|i: int| 0 <= i < s.len() ==> '0' <= #[trigger] s[i] <= '9',
    ensures
        digits_number(s.take(k)) <= digits_number(s),
        0 <= digits_number(s.take(k)),
    decreases s.len() - k,
{
    if k < s.len() {
        lemma_digits_number_grows(s, k + 1);
        assert(s.take(k + 1).drop_last() =~= s.take(k));
        lemma_digits_number_nonnegative(s.take(k));
    } else {
        assert(s.take(k) =~= s);
        lemma_digits_number_nonnegative(s);
    }
}

proof fn lemma_digits_number_nonnegative(s: Seq<char>)
    requires
        forall|i: int| 0 <= i < s.len() ==> '0' <= #[trigger] s[i] <= '9',
    ensures
        0 <= digits_number(s),
    decreases s.len(),
{
    if s.len() > 0 {
        lemma_digits_number_nonnegative(s.drop_last());
    }
}

/// Parses a `Content-Length` value as `str::parse::<usize>` does.
pub fn parse_content_length(text: &str) -> (value: Option<usize>)
    ensures
        value == usize_text(text@),
{
    let n = text.unicode_len();
    let start: usize = if n > 0 && text.get_char(0) == '+' { 1 } else { 0 };
    let ghost digits = unsigned_digits(text@);
    assert(digits =~= text@.subrange(start as int, n as int));
    if start >= n {
        return None;
    }
    let mut value: usize = 0;
    let mut i = start;
    let mut overflow = false;
    while i < n
        invariant
            start <= i <= n == text@.len(),
            digits == text@.subrange(start as int, n as int),
            digits == unsigned_digits(text@),
            forall|j: int| start <= j < i ==> '0' <= #[trigger] text@[j] <= '9',
            !overflow ==> value == digits_number(digits.take(i - start)),
            overflow ==> digits_number(digits.take(i - start)) > usize::MAX,
        decreases n - i,
    {
        let c = text.get_char(i);
        if !('0' <= c && c <= '9') {
            assert(!('0' <= digits[i - start] <= '9'));
            return None;
        }
        let ghost before = digits.take(i - start);
        assert(digits.take(i - start + 1).drop_last() =~= before);
        assert(digits.take(i - start + 1).last() == c);
        let d = (c as u32 - '0' as u32) as usize;
        proof {
            assert forall|j: int| 0 <= j < before.len() implies '0' <= #[trigger] before[j] <= '9' by {
                assert(before[j] == text@[start + j]);
            }
            lemma_digits_number_nonnegative(before);
        }
        if !overflow {
            if value > (usize::MAX - d) / 10 {
                assert(value * 10 + d > usize::MAX) by (nonlinear_arith)
                    requires value > (usize::MAX - d) / 10, d <= 9;
                overflow = true;
            } else {
                assert(value * 10 + d <= usize::MAX) by (nonlinear_arith)
                    requires value <= (usize::MAX - d) / 10, d <= 9;
                value = value * 10 + d;
            }
        } else {
            assert(digits_number(before) * 10 + d > usize::MAX) by (nonlinear_arith)
                requires digits_number(before) > usize::MAX, d >= 0;
        }
        i += 1;
    }
    assert(digits.take(n - start) =~= digits);
    assert forall|j: int| 0 <= j < digits.len() implies '0' <= #[trigger] digits[j] <= '9' by {
        assert(digits[j] == text@[start + j]);
    }
    if overflow { None } else { Some(value) }
}

/// Checks a download response before its body is read: a 2xx status, a
/// final URL that is still HTTPS, and a `Content-Length` (when sent) equal
/// to the expected archive size and within the safety limit.
/// The refusal of a download response, if it is refused.
pub open spec fn response_refusal(
    entry: FixtureEntry,
    status: u16,
    final_url: Seq<char>,
    content_length: Option<Seq<char>>,
) -> Option<Seq<char>> {
    if !(200 <= status < 300) {
        Some(fixture_message(entry, "HTTPS response"@, "expected a 2xx status, got "@ + decimal(status as nat)))
    } else if parsed_url(final_url) is None {
        Some(fixture_message(entry, "HTTPS redirect"@, "final response URL is invalid"@))
    } else if !(parsed_url(final_url) matches Some(parts) && parts.0 == "https"@) {
        Some(fixture_message(entry, "HTTPS redirect"@, "final response URL is not HTTPS"@))
    } else {
        match content_length {
            None => None,
            Some(text) => match usize_text(text) {
                None => Some(fixture_message(entry, "HTTPS headers"@, "Content-Length is not an integer"@)),
                Some(length) => if length != entry.archive_size || length > MAX_ARCHIVE_BYTES {
                    Some(
                        fixture_message(
                            entry,
                            "HTTPS headers"@,
                            "expected Content-Length "@ + decimal(entry.archive_size as nat) + ", got "@ + decimal(
                                length as nat,
                            ),
                        ),
                    )
                } else {
                    None
                },
            },
        }
    }
}

/// The refusal as the result of a check.
pub open spec fn refused_as(checked: Result<(), String>, refusal: Option<Seq<char>>) -> bool {
    match checked {
        Ok(()) => refusal is None,
        Err(message) => refusal == Some(message@),
    }
}

/// Checks a download response before its body is read: a 2xx status, a
/// final URL that is still HTTPS, and a `Content-Length` (when sent) equal
/// to the expected archive size and within the safety limit.
pub fn check_download_response(
    entry: &FixtureEntry,
    status: u16,
    final_url: &str,
    content_length: Option<&str>,
) -> (checked: Result<(), String>)
    ensures
        refused_as(
            checked,
            response_refusal(
                *entry,
                status,
                final_url@,
                match content_length {
                    Some(text) => Some(text@),
                    None => None,
                },
            ),
        ),
        checked is Ok <==> {
            &&& 200 <= status < 300
            &&& parsed_url(final_url@) matches Some(parts) && parts.0 == "https"@
            &&& match content_length {
                Some(text) => usize_text(text@) matches Some(length) && length == entry.archive_size
                    && length <= MAX_ARCHIVE_BYTES,
                None => true,
            }
        },
{
    if !(200 <= status && status < 300) {
        let detail = crate::text::concat2("expected a 2xx status, got ", decimal_string(status as u64).as_str());
        return Err(fixture_error(entry, "HTTPS response", detail.as_str()));
    }
    match parse_url(final_url) {
        None => return Err(fixture_error(entry, "HTTPS redirect", "final response URL is invalid")),
        Some(parts) => {
            if !str_eq(parts.scheme.as_str(), "https") {
                return Err(fixture_error(entry, "HTTPS redirect", "final response URL is not HTTPS"));
            }
        },
    }
    match content_length {
        None => Ok(()),
        Some(text) => match parse_content_length(text) {
            None => Err(fixture_error(entry, "HTTPS headers", "Content-Length is not an integer")),
            Some(length) => {
                if length != entry.archive_size || length > MAX_ARCHIVE_BYTES {
                    let mut detail = crate::text::concat2(
                        "expected Content-Length ",
                        decimal_string(entry.archive_size as u64).as_str(),
                    );
                    detail.append(", got ");
                    detail.append(decimal_string(length as u64).as_str());
                    Err(fixture_error(entry, "HTTPS headers", detail.as_str()))
                } else {
                    Ok(())
                }
            },
        },
    }
}

/// Counts a chunk of `count` downloaded bytes after `total`; the body may
/// not exceed the expected archive size or the safety limit.
pub fn admit_download_chunk(entry: &FixtureEntry, total: usize, count: usize) -> (next: Result<usize, String>)
    ensures
        match next {
            Ok(n) => n == total + count && n <= entry.archive_size && n <= MAX_ARCHIVE_BYTES,
            Err(message) => (total + count > entry.archive_size || total + count > MAX_ARCHIVE_BYTES) && message@
                == fixture_message(
                *entry,
                "archive download body"@,
                if total + count > usize::MAX {
                    "byte count overflow"@
                } else {
                    "body exceeded expected "@ + decimal(entry.archive_size as nat)
                        + " bytes or safety limit 16777216"@
                },
            ),
        },
{
    let next = match total.checked_add(count) {
        Some(next) => next,
        None => return Err(fixture_error(entry, "archive download body", "byte count overflow")),
    };
    if next > entry.archive_size || next > MAX_ARCHIVE_BYTES {
        let mut detail = crate::text::concat2(
            "body exceeded expected ",
            decimal_string(entry.archive_size as u64).as_str(),
        );
        detail.append(" bytes or safety limit 16777216");
        return Err(fixture_error(entry, "archive download body", detail.as_str()));
    }
    Ok(next)
}

/// Checks a finished download: exactly the expected size and digest.
pub fn check_download_integrity(entry: &FixtureEntry, total: usize, digest: &str) -> (checked: Result<(), String>)
    ensures
        checked is Ok <==> (total == entry.archive_size && digest@ == entry.archive_sha256@),
        checked matches Err(message) ==> message@ == fixture_message(
            *entry,
            "archive download integrity"@,
            "expected "@ + decimal(entry.archive_size as nat) + " bytes and SHA-256 "@ + entry.archive_sha256@
                + ", got "@ + decimal(total as nat) + " bytes and "@ + digest@,
        ),
{
    if total != entry.archive_size || !str_eq(digest, entry.archive_sha256.as_str()) {
        let mut detail = crate::text::concat2("expected ", decimal_string(entry.archive_size as u64).as_str());
        detail.append(" bytes and SHA-256 ");
        detail.append(entry.archive_sha256.as_str());
        detail.append(", got ");
        detail.append(decimal_string(total as u64).as_str());
        detail.append(" bytes and ");
        detail.append(digest);
        return Err(fixture_error(entry, "archive download integrity", detail.as_str()));
    }
    Ok(())
}

/// Checks a file read for verification: `actual_size` bytes with digest
/// `actual_digest` must equal the expectation.
pub fn check_file_digest(
    entry: &FixtureEntry,
    stage: &str,
    expected_size: usize,
    expected_digest: &str,
    actual_size: usize,
    actual_digest: &str,
) -> (checked: Result<(), String>)
    ensures
        checked is Ok <==> (actual_size == expected_size && actual_digest@ == expected_digest@),
        checked matches Err(message) ==> message@ == fixture_message(
            *entry,
            stage@,
            if actual_size != expected_size {
                "expected "@ + decimal(expected_size as nat) + " bytes, got "@ + decimal(actual_size as nat)
            } else {
                "expected SHA-256 "@ + expected_digest@ + ", got "@ + actual_digest@
            },
        ),
{
    if actual_size != expected_size {
        let mut detail = crate::text::concat2("expected ", decimal_string(expected_size as u64).as_str());
        detail.append(" bytes, got ");
        detail.append(decimal_string(actual_size as u64).as_str());
        return Err(fixture_error(entry, stage, detail.as_str()));
    }
    if !str_eq(actual_digest, expected_digest) {
        let mut detail = crate::text::concat2("expected SHA-256 ", expected_digest);
        detail.append(", got ");
        detail.append(actual_digest);
        return Err(fixture_error(entry, stage, detail.as_str()));
    }
    Ok(())
}

/// The byte budget of a bounded writer: a write is refused as a whole when
/// it would take the total past the limit.
#[derive(Clone, Copy, Debug, PartialEq, Eq, Structural)]
pub struct WriteBudget {
    pub limit: usize,
    pub written: usize,
}

impl WriteBudget {
    /// A budget of `limit` bytes, none used.
    pub fn new(limit: usize) -> (budget: Self)
        ensures
            budget == (WriteBudget { limit, written: 0 }),
    {
        WriteBudget { limit, written: 0 }
    }

    /// Whether `length` more bytes fit.
    pub fn admits(&self, length: usize) -> (fits: bool)
        ensures
            fits == (self.written + length <= self.limit),
    {
        match self.written.checked_add(length) {
            Some(next) => next <= self.limit,
            None => false,
        }
    }

    /// Counts `count` bytes actually written; `false` when the count would
    /// overflow.
    pub fn record(&mut self, count: usize) -> (ok: bool)
        ensures
            ok == (old(self).written + count <= usize::MAX),
            ok ==> final(self).written == old(self).written + count,
            !ok ==> *final(self) == *old(self),
            final(self).limit == old(self).limit,
    {
        match self.written.checked_add(count) {
            Some(next) => {
                self.written = next;
                true
            },
            None => false,
        }
    }
}

/// What LZMA-alone decoding of `archive` gives: the decoded bytes, or why
/// the archive does not decode.
pub uninterp spec fn lzma_alone_decoded(archive: Seq<u8>) -> Result<Seq<u8>, Seq<char>>;

/// `lzma_rs::lzma_decompress` of `archive` into a buffer of `limit` bytes:
/// the contract claims that what comes back is the named decoding of
/// exactly these bytes, and that it fails only when the archive does not
/// decode or decodes to more than `limit` bytes.
#[verifier::external_body]
fn lzma_decode(archive: &[u8], limit: usize) -> (unpacked: Result<Vec<u8>, String>)
    requires
        limit <= isize::MAX,
    ensures
        unpacked matches Ok(b) ==> lzma_alone_decoded(archive@) is Ok && lzma_alone_decoded(archive@)->Ok_0 == b@
            && b@.len() <= limit,
        unpacked is Err ==> (lzma_alone_decoded(archive@) is Err || lzma_alone_decoded(archive@)->Ok_0.len() > limit),
{
    let mut buffer = vec![0u8; limit];
    let mut cursor = std::io::Cursor::new(buffer.as_mut_slice());
    let decoded = lzma_rs::lzma_decompress(&mut &archive[..], &mut cursor);
    let written = cursor.position() as usize;
    match decoded {
        Ok(()) => {
            buffer.truncate(written);
            Ok(buffer)
        },
        Err(error) => Err(error.to_string()),
    }
}

/// Decodes a fixture's LZMA-alone archive: its output may not pass the
/// fixture's declared size (nor `max_decoded_bytes`), and must have exactly
/// that size.
pub fn decompress_bytes(entry: &FixtureEntry, archive: &[u8], max_decoded_bytes: usize) -> (decoded: Result<Vec<u8>, String>)
    requires
        max_decoded_bytes <= isize::MAX,
    ensures
        decoded is Ok <==> (lzma_alone_decoded(archive@) matches Ok(d) && d.len() == entry.lex_size && entry.lex_size
            <= max_decoded_bytes),
        decoded matches Ok(b) ==> lzma_alone_decoded(archive@) == Ok::<Seq<u8>, Seq<char>>(b@),
{
    let limit = if entry.lex_size < max_decoded_bytes { entry.lex_size } else { max_decoded_bytes };
    match lzma_decode(archive, limit) {
        Err(error) => Err(fixture_error(entry, "LZMA-alone decompression", error.as_str())),
        Ok(bytes) => match check_decompressed_size(entry, bytes.len()) {
            Ok(()) => Ok(bytes),
            Err(message) => Err(message),
        },
    }
}

/// Checks the size of a decompressed fixture.
pub fn check_decompressed_size(entry: &FixtureEntry, written: usize) -> (checked: Result<(), String>)
    ensures
        checked is Ok <==> written == entry.lex_size,
        checked matches Err(message) ==> message@ == fixture_message(
            *entry,
            "LZMA output size"@,
            "expected "@ + decimal(entry.lex_size as nat) + " bytes, got "@ + decimal(written as nat),
        ),
{
    if written != entry.lex_size {
        let mut detail = crate::text::concat2("expected ", decimal_string(entry.lex_size as u64).as_str());
        detail.append(" bytes, got ");
        detail.append(decimal_string(written as u64).as_str());
        return Err(fixture_error(entry, "LZMA output size", detail.as_str()));
    }
    Ok(())
}

/// The SHA-256 digest of `bytes` in lower-case hexadecimal.
pub uninterp spec fn sha256_hex(bytes: Seq<u8>) -> Seq<char>;

/// `sha2::Sha256::digest` of `bytes`, formatted as lower-case hex; the
/// contract claims it is the named digest of exactly these bytes.
#[verifier::external_body]
fn sha256_digest(bytes: &[u8]) -> (digest: String)
    ensures
        digest@ == sha256_hex(bytes@),
{
    format!("{:x}", sha2::Sha256::digest(bytes))
}

/// Checks the bytes of a downloaded archive: exactly the expected size and
/// digest.
pub fn check_download_body(entry: &FixtureEntry, body: &[u8]) -> (checked: Result<(), String>)
    ensures
        checked is Ok <==> (body@.len() == entry.archive_size && sha256_hex(body@) == entry.archive_sha256@),
        checked matches Err(message) ==> message@ == fixture_message(
            *entry,
            "archive download integrity"@,
            "expected "@ + decimal(entry.archive_size as nat) + " bytes and SHA-256 "@ + entry.archive_sha256@
                + ", got "@ + decimal(body@.len()) + " bytes and "@ + sha256_hex(body@),
        ),
{
    let digest = sha256_digest(body);
    check_download_integrity(entry, body.len(), digest.as_str())
}

/// Checks the bytes read from a fixture file: within `maximum_size`, then
/// of the expected size and digest.
pub fn verify_bytes(
    entry: &FixtureEntry,
    stage: &str,
    bytes: &[u8],
    expected_size: usize,
    expected_digest: &str,
    maximum_size: usize,
) -> (checked: Result<(), String>)
    ensures
        checked is Ok <==> (bytes@.len() <= maximum_size && bytes@.len() == expected_size && sha256_hex(bytes@)
            == expected_digest@),
        checked matches Err(message) ==> message@ == fixture_message(
            *entry,
            stage@,
            if bytes@.len() > maximum_size {
                "file exceeds the "@ + decimal(maximum_size as nat) + "-byte safety limit"@
            } else if bytes@.len() != expected_size {
                "expected "@ + decimal(expected_size as nat) + " bytes, got "@ + decimal(bytes@.len())
            } else {
                "expected SHA-256 "@ + expected_digest@ + ", got "@ + sha256_hex(bytes@)
            },
        ),
{
    if bytes.len() > maximum_size {
        return Err(size_limit_error(entry, stage, maximum_size));
    }
    let digest = sha256_digest(bytes);
    check_file_digest(entry, stage, expected_size, expected_digest, bytes.len(), digest.as_str())
}

/// `file exceeds the {maximum_size}-byte safety limit` at `stage`.
pub fn size_limit_error(entry: &FixtureEntry, stage: &str, maximum_size: usize) -> (message: String)
    ensures
        message@ == fixture_message(
            *entry,
            stage@,
            "file exceeds the "@ + decimal(maximum_size as nat) + "-byte safety limit"@,
        ),
{
    let detail = concat3("file exceeds the ", decimal_string(maximum_size as u64).as_str(), "-byte safety limit");
    fixture_error(entry, stage, detail.as_str())
}

} // verus!
