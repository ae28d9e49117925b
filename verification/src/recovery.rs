//! Ownership rules of the session markers that give evidence of sessions
//! that did not exit normally. The files themselves are handled by the
//! application shell.
use vstd::prelude::*;
use crate::error::IoErrorKind;
use crate::text::{concat3, ends_with, has_prefix, has_suffix, starts_with, substring};

verus! {

/// File-name prefix of a session marker.
pub const MARKER_PREFIX: &'static str = "wubilex-session-";

/// File-name suffix of a session marker.
pub const MARKER_SUFFIX: &'static str = ".json";

/// Version of the marker record.
pub const MARKER_SCHEMA_VERSION: u8 = 1;

/// What a valid session id is made of.
pub const SESSION_ID_RULE: &'static str = "session id must contain only ASCII letters, digits, or hyphens";

/// A character allowed in a session id.
pub open spec fn session_id_char(c: char) -> bool {
    ('a' <= c <= 'z') || ('A' <= c <= 'Z') || ('0' <= c <= '9') || c == '-'
}

/// A session id: 1 to 64 ASCII letters, digits or hyphens, so it can never
/// name a path outside the marker directory.
pub open spec fn valid_session_id(id: Seq<char>) -> bool {
    1 <= id.len() <= 64 && forall|i: int| 0 <= i < id.len() ==> session_id_char(#[trigger] id[i])
}

/// Accepts a valid session id; anything else is an invalid-input failure.
pub fn validate_session_id(session_id: &str) -> (checked: Result<(), IoErrorKind>)
    ensures
        checked is Ok <==> valid_session_id(session_id@),
        checked matches Err(kind) ==> kind is InvalidInput,
{
    let n = session_id.unicode_len();
    if n < 1 || n > 64 {
        return Err(IoErrorKind::InvalidInput);
    }
    let mut i: usize = 0;
    while i < n
        invariant
            n == session_id@.len(),
            i <= n,
            forall|j: int| 0 <= j < i ==> session_id_char(#[trigger] session_id@[j]),
        decreases n - i,
    {
        let c = session_id.get_char(i);
        if !(('a' <= c && c <= 'z') || ('A' <= c && c <= 'Z') || ('0' <= c && c <= '9') || c == '-') {
            assert(!session_id_char(session_id@[i as int]));
            return Err(IoErrorKind::InvalidInput);
        }
        i += 1;
    }
    Ok(())
}

/// Whether `name` is `wubilex-session-{id}.json` for a valid id.
pub open spec fn owned_marker_name(name: Seq<char>) -> bool {
    &&& has_prefix(name, MARKER_PREFIX@)
    &&& has_suffix(name, MARKER_SUFFIX@)
    &&& name.len() >= 21
    &&& valid_session_id(name.subrange(16, name.len() - 5))
}

/// Tests [`owned_marker_name`].
pub fn is_owned_marker_name(name: &str) -> (owned: bool)
    ensures
        owned == owned_marker_name(name@),
{
    proof {
        reveal_strlit("wubilex-session-");
        reveal_strlit(".json");
    }
    let n = name.unicode_len();
    if !(starts_with(name, MARKER_PREFIX) && ends_with(name, MARKER_SUFFIX) && n >= 21) {
        return false;
    }
    let id = substring(name, 16, n - 5);
    validate_session_id(id.as_str()).is_ok()
}

/// The marker file name of a session.
pub fn marker_file_name(session_id: &str) -> (name: String)
    ensures
        name@ == MARKER_PREFIX@ + session_id@ + MARKER_SUFFIX@,
{
    concat3(MARKER_PREFIX, session_id, MARKER_SUFFIX)
}

/// The marker a session creates is one that later sessions count as left
/// behind, and its name holds no path separator, so it stays inside the
/// marker directory.
pub proof fn lemma_marker_name_is_owned(session_id: Seq<char>)
    requires
        valid_session_id(session_id),
    ensures
        owned_marker_name(MARKER_PREFIX@ + session_id + MARKER_SUFFIX@),
        forall|i: int|
            0 <= i < (MARKER_PREFIX@ + session_id + MARKER_SUFFIX@).len() ==> {
                let c = #[trigger] (MARKER_PREFIX@ + session_id + MARKER_SUFFIX@)[i];
                c != '/' && c != '\\'
            },
{
    reveal_strlit("wubilex-session-");
    reveal_strlit(".json");
    let name = MARKER_PREFIX@ + session_id + MARKER_SUFFIX@;
    assert(MARKER_PREFIX@.len() == 16);
    assert(MARKER_SUFFIX@.len() == 5);
    assert(name.subrange(0, 16) =~= MARKER_PREFIX@);
    assert(name.subrange(name.len() - 5, name.len() as int) =~= MARKER_SUFFIX@);
    assert(name.subrange(16, name.len() - 5) =~= session_id);
    assert forall|i: int| 0 <= i < name.len() implies name[i] != '/' && name[i] != '\\' by {
        if i < 16 {
            assert(name[i] == MARKER_PREFIX@[i]);
        } else if i < 16 + session_id.len() {
            assert(name[i] == session_id[i - 16]);
            assert(session_id_char(session_id[i - 16]));
        } else {
            assert(name[i] == MARKER_SUFFIX@[i - 16 - session_id.len()]);
        }
    }
}

/// How many of `names` are owned markers.
pub open spec fn owned_count(names: Seq<Seq<char>>) -> nat
    decreases names.len(),
{
    if names.len() == 0 {
        0
    } else {
        owned_count(names.drop_last()) + if owned_marker_name(names.last()) { 1nat } else { 0nat }
    }
}

/// Counts the owned markers among the file names of a directory.
pub fn count_owned_markers(names: &Vec<String>) -> (count: usize)
    ensures
        count == owned_count(names@.map_values(|n: String| n@)),
{
    let ghost all = names@.map_values(|n: String| n@);
    let mut count: usize = 0;
    let mut i: usize = 0;
    while i < names.len()
        invariant
            i <= names@.len(),
            all == names@.map_values(|n: String| n@),
            count == owned_count(all.take(i as int)),
            count <= i,
        decreases names@.len() - i,
    {
        assert(all.take(i + 1).drop_last() =~= all.take(i as int));
        assert(all.take(i + 1).last() == names@[i as int]@);
        if is_owned_marker_name(names[i].as_str()) {
            count += 1;
        }
        i += 1;
    }
    assert(all.take(names@.len() as int) =~= all);
    count
}

/// A marker this process created, and how many markers predated it.
#[derive(Debug)]
pub struct SessionMarker {
    path: String,
    previous_abnormal_session_count: usize,
}

impl SessionMarker {
    /// The marker at `path`, created when `previous` markers already existed.
    pub fn new(path: String, previous: usize) -> (marker: Self)
        ensures
            marker.path_view() == path@,
            marker.previous_count() == previous,
    {
        SessionMarker { path, previous_abnormal_session_count: previous }
    }

    /// The marker's path.
    pub closed spec fn path_view(&self) -> Seq<char> {
        self.path@
    }

    /// How many markers predated this session.
    pub closed spec fn previous_count(&self) -> usize {
        self.previous_abnormal_session_count
    }

    /// Number of markers that predated this session.
    pub fn previous_abnormal_session_count(&self) -> (count: usize)
        ensures
            count == self.previous_count(),
    {
        self.previous_abnormal_session_count
    }

    /// The marker's path; only this exact file is removed on a normal exit.
    pub fn path(&self) -> (path: &str)
        ensures
            path@ == self.path_view(),
    {
        self.path.as_str()
    }
}

/// The marker a process keeps until it exits normally.
#[derive(Debug)]
pub struct SessionLifecycle {
    marker: Option<SessionMarker>,
}

impl SessionLifecycle {
    /// Holds `marker` until a normal exit.
    pub fn new(marker: Option<SessionMarker>) -> (lifecycle: Self)
        ensures
            lifecycle.holds_marker() == (marker is Some),
    {
        SessionLifecycle { marker }
    }

    /// Whether a marker is still held.
    pub closed spec fn holds_marker(&self) -> bool {
        self.marker is Some
    }

    /// The path of the held marker, which a normal exit removes.
    pub fn marker_path(&self) -> (path: Option<&str>)
        ensures
            path is Some == self.holds_marker(),
    {
        match &self.marker {
            Some(marker) => Some(marker.path()),
            None => None,
        }
    }

    /// Records a normal exit, `removal` being the answer of removing the
    /// held marker's file (of nothing, when none is held). A marker that was
    /// removed, or was already gone, is released and the exit succeeds; any
    /// other failure is returned and the marker kept, so that a later exit
    /// tries again. Without a marker the exit succeeds.
    pub fn clean_exit(&mut self, removal: Result<(), IoErrorKind>) -> (outcome: Result<(), IoErrorKind>)
        ensures
            !old(self).holds_marker() ==> outcome is Ok && !final(self).holds_marker(),
            old(self).holds_marker() ==> match removal {
                Ok(()) => outcome is Ok && !final(self).holds_marker(),
                Err(IoErrorKind::NotFound) => outcome is Ok && !final(self).holds_marker(),
                Err(kind) => outcome == Err::<(), IoErrorKind>(kind) && final(self).holds_marker(),
            },
    {
        if self.marker.is_none() {
            return Ok(());
        }
        match removal {
            Ok(()) => {
                self.marker = None;
                Ok(())
            },
            Err(IoErrorKind::NotFound) => {
                self.marker = None;
                Ok(())
            },
            Err(kind) => Err(kind),
        }
    }
}

} // verus!
