//! The injectable configuration filesystem boundary and the path helpers the
//! transaction logic needs.
use vstd::prelude::*;
use crate::error::{IoErrorKind, io_kind_name};
use crate::text::{decimal, decimal_string};

verus! {

/// A staged filesystem failure, safe to attach to an application error.
#[derive(Debug, PartialEq, Eq)]
pub struct ConfigIoError {
    pub stage: String,
    pub path: String,
    pub kind: IoErrorKind,
    pub code: u32,
    pub message: String,
}

/// `stage=..; path=..; kind=..; code=..; error=..` for a failure.
pub open spec fn io_detail(error: ConfigIoError) -> Seq<char> {
    "stage="@ + error.stage@ + "; path="@ + error.path@ + "; kind="@ + io_kind_name(error.kind) + "; code="@
        + decimal(error.code as nat) + "; error="@ + error.message@
}

impl ConfigIoError {
    /// The evidence of this failure.
    pub fn detail(&self) -> (text: String)
        ensures
            text@ == io_detail(*self),
    {
        let mut text = String::from_str("stage=");
        text.append(self.stage.as_str());
        text.append("; path=");
        text.append(self.path.as_str());
        text.append("; kind=");
        text.append(self.kind.name().as_str());
        text.append("; code=");
        text.append(decimal_string(self.code as u64).as_str());
        text.append("; error=");
        text.append(self.message.as_str());
        text
    }
}

/// Where the names stand after a failed replacement.
#[derive(Clone, Copy, Debug, PartialEq, Eq, Structural)]
pub enum ReplacementDisposition {
    NamesUnchanged,
    OriginalAtBackup,
}

/// The debug rendering of a disposition.
pub open spec fn disposition_name(disposition: ReplacementDisposition) -> Seq<char> {
    match disposition {
        ReplacementDisposition::NamesUnchanged => "NamesUnchanged"@,
        ReplacementDisposition::OriginalAtBackup => "OriginalAtBackup"@,
    }
}

/// The debug rendering of a disposition.
pub fn disposition_text(disposition: ReplacementDisposition) -> (text: &'static str)
    ensures
        text@ == disposition_name(disposition),
{
    match disposition {
        ReplacementDisposition::NamesUnchanged => "NamesUnchanged",
        ReplacementDisposition::OriginalAtBackup => "OriginalAtBackup",
    }
}

/// A failed native replacement of the live file.
#[derive(Debug, PartialEq, Eq)]
pub struct ReplaceFileError {
    pub stage: String,
    pub code: u32,
    pub kind: IoErrorKind,
    pub message: String,
    pub disposition: ReplacementDisposition,
}

/// File operations exposed as separate stages, so that each can fail on its
/// own. Paths are platform path strings; `Pending` is an open staging file.
pub trait ConfigFileOps {
    type Pending;

    fn create_dir_all(&self, path: &str) -> Result<(), ConfigIoError>;

    fn path_exists(&self, path: &str) -> Result<bool, ConfigIoError>;

    fn path_is_directory(&self, path: &str) -> Result<bool, ConfigIoError>;

    fn canonicalize_existing(&self, path: &str) -> Result<Option<String>, ConfigIoError>;

    fn read_bounded(&self, path: &str) -> Result<Vec<u8>, ConfigIoError>;

    fn list_owned_backups(&self, directory: &str) -> Result<Vec<String>, ConfigIoError>;

    fn create_temp_exclusive(&self, path: &str) -> Result<Self::Pending, ConfigIoError>;

    fn write_staging(&self, path: &str, pending: &mut Self::Pending, bytes: &[u8]) -> Result<(), ConfigIoError>;

    fn flush_staging(&self, path: &str, pending: &mut Self::Pending) -> Result<(), ConfigIoError>;

    fn sync(&self, path: &str, pending: &mut Self::Pending) -> Result<(), ConfigIoError>;

    fn close(&self, path: &str, pending: Self::Pending) -> Result<(), ConfigIoError>;

    fn replace_with_backup(&self, target: &str, staging: &str, backup: &str) -> Result<(), ReplaceFileError>;

    fn install_new_noreplace(&self, staging: &str, target: &str) -> Result<(), ConfigIoError>;

    fn restore_backup_noreplace(&self, backup: &str, target: &str) -> Result<(), ConfigIoError>;

    fn preserve_corrupt_noreplace(&self, source: &str, destination: &str) -> Result<(), ConfigIoError>;

    fn remove_owned(&self, path: &str) -> Result<(), ConfigIoError>;
}

/// What `Path::join` gives for a directory and a file name (as text).
pub uninterp spec fn joined_path(directory: Seq<char>, name: Seq<char>) -> Seq<char>;

/// What `Path::parent` gives for a path (as text).
pub uninterp spec fn parent_path(path: Seq<char>) -> Option<Seq<char>>;

/// What `Path::file_name` gives for a path (as text).
pub uninterp spec fn file_name_of(path: Seq<char>) -> Option<Seq<char>>;

/// What `Path::is_absolute` answers for a path (as text), on the platform
/// the library is built for.
pub uninterp spec fn path_is_absolute(path: Seq<char>) -> bool;

/// What `str::to_lowercase` gives (the Unicode lowercase mapping).
pub uninterp spec fn lowercase(text: Seq<char>) -> Seq<char>;

/// Joins `name` onto `directory` with `std::path::Path::join`.
#[verifier::external_body]
pub(crate) fn join_path(directory: &str, name: &str) -> (path: String)
    ensures
        path@ == joined_path(directory@, name@),
{
    std::path::Path::new(directory).join(name).to_string_lossy().into_owned()
}

/// The parent of `path` (`std::path::Path::parent`).
#[verifier::external_body]
pub(crate) fn parent_of(path: &str) -> (parent: Option<String>)
    ensures
        match parent {
            Some(p) => parent_path(path@) == Some(p@),
            None => parent_path(path@) is None,
        },
{
    std::path::Path::new(path).parent().map(|p| p.to_string_lossy().into_owned())
}

/// The last component of `path` (`std::path::Path::file_name`).
#[verifier::external_body]
pub(crate) fn file_name(path: &str) -> (name: Option<String>)
    ensures
        match name {
            Some(n) => file_name_of(path@) == Some(n@),
            None => file_name_of(path@) is None,
        },
{
    std::path::Path::new(path).file_name().map(|n| n.to_string_lossy().into_owned())
}

/// Whether `path` is absolute (`std::path::Path::is_absolute`). The answer
/// depends on the path alone, under the rules of the platform the library
/// is built for (a drive or UNC prefix on Windows, a leading `/` elsewhere);
/// the name stands for it without saying which.
#[verifier::external_body]
pub(crate) fn is_absolute(path: &str) -> (absolute: bool)
    ensures
        absolute == path_is_absolute(path@),
{
    std::path::Path::new(path).is_absolute()
}

/// The Unicode lowercase form of `text` (`str::to_lowercase`).
#[verifier::external_body]
pub(crate) fn to_lowercase(text: &str) -> (lower: String)
    ensures
        lower@ == lowercase(text@),
{
    text.to_lowercase()
}

} // verus!
