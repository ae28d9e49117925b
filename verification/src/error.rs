//! Stable command-boundary errors.
use vstd::prelude::*;
use crate::text::{take_chars, truncate_chars};

verus! {

/// Longest error detail kept, in characters.
pub const MAX_ERROR_DETAIL_CHARS: usize = 1024;

/// Stable error identifiers for application commands.
#[derive(Clone, Copy, Debug, PartialEq, Eq, Structural)]
pub enum AppErrorCode {
    ConfigUnavailable,
    ConfigInvalidPath,
    ConfigReadFailed,
    ConfigParseFailed,
    ConfigUnsupportedVersion,
    ConfigValidationFailed,
    ConfigPreservationFailed,
    ConfigBackupFailed,
    ConfigWriteFailed,
    ConfigReplaceFailed,
    ConfigImportFailed,
    ConfigExportFailed,
    ConfigStateFailed,
    WindowUnavailable,
    WindowOperationFailed,
}

/// Cross-command error categories.
#[derive(Clone, Copy, Debug, PartialEq, Eq, Structural)]
pub enum AppErrorKind {
    Io,
    Parse,
    Network,
    Permission,
    System,
    Validation,
    Cancelled,
}

/// Requirement module responsible for an operation.
#[derive(Clone, Copy, Debug, PartialEq, Eq, Structural)]
pub enum RequirementModule {
    M1,
    M2,
    M3,
    M4,
    M5,
    M6,
    M7,
    M8,
}

/// Error returned by every fallible application command.
#[derive(Clone, Debug)]
pub struct AppError {
    pub code: AppErrorCode,
    pub kind: AppErrorKind,
    pub module: RequirementModule,
    pub message: String,
    pub detail: Option<String>,
    pub recoverable: bool,
}

/// The view of an optional string.
pub open spec fn opt_view(s: Option<String>) -> Option<Seq<char>> {
    match s {
        Some(v) => Some(v@),
        None => None,
    }
}

/// A detail as it is kept: at most [`MAX_ERROR_DETAIL_CHARS`] characters.
pub open spec fn bounded_detail(detail: Option<Seq<char>>) -> Option<Seq<char>> {
    match detail {
        Some(d) => Some(take_chars(d, MAX_ERROR_DETAIL_CHARS as nat)),
        None => None,
    }
}

/// Whether `error` carries exactly these fields, the detail bounded.
pub open spec fn is_config_error(
    error: AppError,
    code: AppErrorCode,
    kind: AppErrorKind,
    message: Seq<char>,
    detail: Option<Seq<char>>,
    recoverable: bool,
) -> bool {
    &&& error.code == code
    &&& error.kind == kind
    &&& error.module == RequirementModule::M7
    &&& error.message@ == message
    &&& opt_view(error.detail) == bounded_detail(detail)
    &&& error.recoverable == recoverable
}

/// Copies an optional string, keeping at most `limit` characters.
pub fn truncate_optional(detail: Option<String>, limit: usize) -> (result: Option<String>)
    ensures
        opt_view(result) == match opt_view(detail) {
            Some(d) => Some(take_chars(d, limit as nat)),
            None => None,
        },
{
    match detail {
        Some(value) => Some(truncate_chars(value.as_str(), limit)),
        None => None,
    }
}

impl AppError {
    /// Builds a configuration-module error whose detail is bounded.
    pub fn config(
        code: AppErrorCode,
        kind: AppErrorKind,
        message: &str,
        detail: Option<String>,
        recoverable: bool,
    ) -> (error: Self)
        ensures
            is_config_error(error, code, kind, message@, opt_view(detail), recoverable),
    {
        AppError {
            code,
            kind,
            module: RequirementModule::M7,
            message: String::from_str(message),
            detail: truncate_optional(detail, MAX_ERROR_DETAIL_CHARS),
            recoverable,
        }
    }

    /// A background configuration task that could not complete.
    pub fn task_join(stage: &str, detail: &str) -> (error: Self)
        ensures
            is_config_error(
                error,
                AppErrorCode::ConfigStateFailed,
                AppErrorKind::System,
                "配置任务未能完成。"@,
                Some("stage="@ + stage@ + "; error="@ + detail@),
                true,
            ),
    {
        let mut text = String::from_str("stage=");
        text.append(stage);
        text.append("; error=");
        text.append(detail);
        AppError::config(
            AppErrorCode::ConfigStateFailed,
            AppErrorKind::System,
            "配置任务未能完成。",
            Some(text),
            true,
        )
    }

    /// A main-window operation failure at `stage`.
    pub fn window(code: AppErrorCode, message: &str, stage: &str, recoverable: bool) -> (error: Self)
        ensures
            error.code == code,
            error.kind == AppErrorKind::System,
            error.module == RequirementModule::M7,
            error.message@ == message@,
            opt_view(error.detail) == Some("stage="@ + stage@),
            error.recoverable == recoverable,
    {
        let mut text = String::from_str("stage=");
        text.append(stage);
        AppError {
            code,
            kind: AppErrorKind::System,
            module: RequirementModule::M7,
            message: String::from_str(message),
            detail: Some(text),
            recoverable,
        }
    }
}

} // verus!

verus! {

/// The kind of a failed filesystem operation, as the logic distinguishes it.
/// Kinds that the logic does not tell apart keep their debug name.
#[derive(Clone, Debug, PartialEq, Eq)]
pub enum IoErrorKind {
    NotFound,
    PermissionDenied,
    AlreadyExists,
    InvalidInput,
    InvalidData,
    Other(String),
}

/// The debug rendering of a kind (`{kind:?}`).
pub open spec fn io_kind_name(kind: IoErrorKind) -> Seq<char> {
    match kind {
        IoErrorKind::NotFound => "NotFound"@,
        IoErrorKind::PermissionDenied => "PermissionDenied"@,
        IoErrorKind::AlreadyExists => "AlreadyExists"@,
        IoErrorKind::InvalidInput => "InvalidInput"@,
        IoErrorKind::InvalidData => "InvalidData"@,
        IoErrorKind::Other(name) => name@,
    }
}

impl IoErrorKind {
    /// The debug rendering of this kind.
    pub fn name(&self) -> (text: String)
        ensures
            text@ == io_kind_name(*self),
    {
        match self {
            IoErrorKind::NotFound => String::from_str("NotFound"),
            IoErrorKind::PermissionDenied => String::from_str("PermissionDenied"),
            IoErrorKind::AlreadyExists => String::from_str("AlreadyExists"),
            IoErrorKind::InvalidInput => String::from_str("InvalidInput"),
            IoErrorKind::InvalidData => String::from_str("InvalidData"),
            IoErrorKind::Other(name) => name.clone(),
        }
    }

    /// Whether this is [`IoErrorKind::AlreadyExists`].
    pub fn is_already_exists(&self) -> (r: bool)
        ensures
            r == (*self is AlreadyExists),
    {
        match self {
            IoErrorKind::AlreadyExists => true,
            _ => false,
        }
    }

    /// Whether this is [`IoErrorKind::PermissionDenied`].
    pub fn is_permission_denied(&self) -> (r: bool)
        ensures
            r == (*self is PermissionDenied),
    {
        match self {
            IoErrorKind::PermissionDenied => true,
            _ => false,
        }
    }
}

} // verus!
