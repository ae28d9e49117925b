//! The authoritative configuration state and the errors reported about it.
use vstd::prelude::*;
use crate::config::codec::{CodecFailure, ConfigCodecError};
use crate::config::migration::MigrationError;
use crate::config::model::{AppConfig, ConfigModel, default_config};
use crate::config::storage::{ConfigIoError, io_detail};
use crate::error::{
    AppError, AppErrorCode, AppErrorKind, bounded_detail, is_config_error, opt_view, truncate_optional,
    MAX_ERROR_DETAIL_CHARS,
};
use crate::text::{concat2, decimal, decimal_string};

verus! {

/// Name of the live configuration file in the configuration directory.
pub const CONFIG_FILE_NAME: &'static str = "config.toml";

/// Most notices a snapshot keeps.
pub const MAX_CONFIG_NOTICES: usize = 8;

/// Whether routine configuration writes are currently permitted.
#[derive(Clone, Copy, Debug, PartialEq, Eq, Structural)]
pub enum ConfigPersistence {
    Ready,
    ReadOnly,
}

/// Stable startup and recovery notice identifiers.
#[derive(Clone, Copy, Debug, PartialEq, Eq, Structural)]
pub enum ConfigNoticeCode {
    CorruptConfigPreserved,
    BackupRecovered,
    UnsupportedVersion,
    PersistenceUnavailable,
    ReplacementRecoveryFailed,
}

/// Bounded visible evidence for degraded configuration behaviour.
#[derive(Debug, PartialEq, Eq)]
pub struct ConfigNotice {
    pub code: ConfigNoticeCode,
    pub message: String,
    pub detail: Option<String>,
}

/// The mathematical form of a [`ConfigNotice`].
pub struct NoticeModel {
    pub code: ConfigNoticeCode,
    pub message: Seq<char>,
    pub detail: Option<Seq<char>>,
}

impl View for ConfigNotice {
    type V = NoticeModel;

    open spec fn view(&self) -> NoticeModel {
        NoticeModel { code: self.code, message: self.message@, detail: opt_view(self.detail) }
    }
}

/// Copies an optional string.
pub fn clone_optional(value: &Option<String>) -> (copy: Option<String>)
    ensures
        opt_view(copy) == opt_view(*value),
{
    match value {
        Some(v) => Some(v.clone()),
        None => None,
    }
}

impl Clone for ConfigNotice {
    fn clone(&self) -> (copy: Self)
        ensures
            copy@ == self@,
    {
        ConfigNotice { code: self.code, message: self.message.clone(), detail: clone_optional(&self.detail) }
    }
}

/// The notice made of `code`, `message` and `detail`, the detail bounded.
pub open spec fn notice_model(code: ConfigNoticeCode, message: Seq<char>, detail: Option<Seq<char>>) -> NoticeModel {
    NoticeModel { code, message, detail: bounded_detail(detail) }
}

impl ConfigNotice {
    /// A notice whose detail keeps at most 1,024 characters.
    pub fn new(code: ConfigNoticeCode, message: &str, detail: Option<String>) -> (notice: Self)
        ensures
            notice@ == notice_model(code, message@, opt_view(detail)),
    {
        ConfigNotice {
            code,
            message: String::from_str(message),
            detail: truncate_optional(detail, MAX_ERROR_DETAIL_CHARS),
        }
    }
}

/// Complete authoritative configuration state.
#[derive(Debug, PartialEq, Eq)]
pub struct ConfigSnapshot {
    pub revision: u64,
    pub config: AppConfig,
    pub persistence: ConfigPersistence,
    pub notices: Vec<ConfigNotice>,
}

/// The mathematical form of a [`ConfigSnapshot`].
pub struct SnapshotModel {
    pub revision: u64,
    pub config: ConfigModel,
    pub persistence: ConfigPersistence,
    pub notices: Seq<NoticeModel>,
}

/// The models of a list of notices.
pub open spec fn notice_models(notices: Seq<ConfigNotice>) -> Seq<NoticeModel> {
    notices.map_values(|n: ConfigNotice| n@)
}

impl View for ConfigSnapshot {
    type V = SnapshotModel;

    open spec fn view(&self) -> SnapshotModel {
        SnapshotModel {
            revision: self.revision,
            config: self.config@,
            persistence: self.persistence,
            notices: notice_models(self.notices@),
        }
    }
}

/// Copies a list of notices.
pub fn clone_notices(notices: &Vec<ConfigNotice>) -> (copy: Vec<ConfigNotice>)
    ensures
        notice_models(copy@) == notice_models(notices@),
{
    let mut copy: Vec<ConfigNotice> = Vec::new();
    let mut i: usize = 0;
    while i < notices.len()
        invariant
            i <= notices@.len(),
            notice_models(copy@) == notice_models(notices@).take(i as int),
        decreases notices@.len() - i,
    {
        let ghost before = copy@;
        assert(notice_models(before).len() == before.len());
        let item = notices[i].clone();
        assert(item@ == notices@[i as int]@);
        copy.push(item);
        assert(copy@ == before.push(item));
        assert(notice_models(copy@) =~= notice_models(notices@).take(i + 1));
        i += 1;
    }
    assert(notice_models(notices@).take(notices@.len() as int) =~= notice_models(notices@));
    copy
}

impl Clone for ConfigSnapshot {
    fn clone(&self) -> (copy: Self)
        ensures
            copy@ == self@,
    {
        ConfigSnapshot {
            revision: self.revision,
            config: self.config.clone(),
            persistence: self.persistence,
            notices: clone_notices(&self.notices),
        }
    }
}

/// A fresh snapshot: revision 1 and at most eight notices.
pub open spec fn fresh_model(config: ConfigModel, persistence: ConfigPersistence, notices: Seq<NoticeModel>) -> SnapshotModel {
    SnapshotModel {
        revision: 1,
        config,
        persistence,
        notices: if notices.len() <= MAX_CONFIG_NOTICES { notices } else { notices.take(MAX_CONFIG_NOTICES as int) },
    }
}

/// Builds a fresh snapshot.
pub fn fresh_snapshot(config: AppConfig, persistence: ConfigPersistence, notices: Vec<ConfigNotice>) -> (snapshot: ConfigSnapshot)
    ensures
        snapshot@ == fresh_model(config@, persistence, notice_models(notices@)),
{
    let mut notices = notices;
    let ghost all = notice_models(notices@);
    if notices.len() > MAX_CONFIG_NOTICES {
        notices.truncate(MAX_CONFIG_NOTICES);
        assert(notice_models(notices@) =~= all.take(MAX_CONFIG_NOTICES as int));
    }
    ConfigSnapshot { revision: 1, config, persistence, notices }
}

/// The read-only default state with one `PersistenceUnavailable` notice.
pub open spec fn degraded_model(message: Seq<char>, detail: Seq<char>) -> SnapshotModel {
    fresh_model(
        default_config(),
        ConfigPersistence::ReadOnly,
        seq![notice_model(ConfigNoticeCode::PersistenceUnavailable, message, Some(detail))],
    )
}

/// The read-only default state explained by `message` and `detail`.
pub fn degraded_defaults(message: &str, detail: String) -> (snapshot: ConfigSnapshot)
    ensures
        snapshot@ == degraded_model(message@, detail@),
{
    let notice = ConfigNotice::new(ConfigNoticeCode::PersistenceUnavailable, message, Some(detail));
    let notices = vec![notice];
    assert(notice_models(notices@) =~= seq![notice@]);
    fresh_snapshot(AppConfig::default(), ConfigPersistence::ReadOnly, notices)
}

/// `notices` with `notice` appended while fewer than eight are kept.
pub open spec fn pushed(notices: Seq<NoticeModel>, notice: NoticeModel) -> Seq<NoticeModel> {
    if notices.len() < MAX_CONFIG_NOTICES { notices.push(notice) } else { notices }
}

/// Appends `notice` while fewer than eight are kept.
pub fn push_notice(notices: &mut Vec<ConfigNotice>, notice: ConfigNotice)
    ensures
        notice_models(final(notices)@) == pushed(notice_models(old(notices)@), notice@),
{
    let ghost before = notice_models(notices@);
    if notices.len() < MAX_CONFIG_NOTICES {
        notices.push(notice);
        assert(notice_models(notices@) =~= before.push(notice@));
    }
}

/// The label of a codec failure kind.
pub open spec fn codec_label(error: CodecFailure) -> Seq<char> {
    match error {
        CodecFailure::SizeLimit => "size_limit"@,
        CodecFailure::Utf8 => "utf8"@,
        CodecFailure::Parse(_) => "toml_parse"@,
        CodecFailure::Migration(MigrationError::Missing) => "missing_version"@,
        CodecFailure::Migration(MigrationError::Invalid) => "invalid_version"@,
        CodecFailure::Migration(MigrationError::Future(_)) => "future_version"@,
        CodecFailure::Migration(MigrationError::Unsupported(_)) => "unsupported_version"@,
        CodecFailure::Validation(_) => "validation"@,
        CodecFailure::Encode(_) => "encode"@,
    }
}

/// The label of a codec failure kind, safe to show.
pub fn codec_error_label(error: &ConfigCodecError) -> (label: &'static str)
    ensures
        label@ == codec_label(error@),
{
    match error {
        ConfigCodecError::SizeLimit => "size_limit",
        ConfigCodecError::Utf8 => "utf8",
        ConfigCodecError::Parse(_) => "toml_parse",
        ConfigCodecError::Migration(MigrationError::Missing) => "missing_version",
        ConfigCodecError::Migration(MigrationError::Invalid) => "invalid_version",
        ConfigCodecError::Migration(MigrationError::Future(_)) => "future_version",
        ConfigCodecError::Migration(MigrationError::Unsupported(_)) => "unsupported_version",
        ConfigCodecError::Validation(_) => "validation",
        ConfigCodecError::Encode(_) => "encode",
    }
}

/// The application error reported for a codec failure.
pub open spec fn codec_app_error_spec(error: CodecFailure, result: AppError) -> bool {
    match error {
        CodecFailure::Migration(MigrationError::Future(v)) => is_config_error(
            result,
            AppErrorCode::ConfigUnsupportedVersion,
            AppErrorKind::Validation,
            "配置版本高于当前程序支持范围。"@,
            Some("schemaVersion="@ + decimal(v as nat)),
            false,
        ),
        CodecFailure::Migration(_) => is_config_error(
            result,
            AppErrorCode::ConfigUnsupportedVersion,
            AppErrorKind::Validation,
            "配置版本不受支持。"@,
            Some("kind="@ + codec_label(error)),
            false,
        ),
        CodecFailure::Validation(e) => is_config_error(
            result,
            AppErrorCode::ConfigValidationFailed,
            AppErrorKind::Validation,
            "配置内容未通过校验。"@,
            Some("field="@ + e.field@ + "; reason="@ + e.reason@),
            true,
        ),
        CodecFailure::Encode(_) => is_config_error(
            result,
            AppErrorCode::ConfigWriteFailed,
            AppErrorKind::System,
            "配置无法编码。"@,
            Some("stage=encode_config"@),
            false,
        ),
        _ => is_config_error(
            result,
            AppErrorCode::ConfigParseFailed,
            AppErrorKind::Parse,
            "配置文件无法解析。"@,
            Some("kind="@ + codec_label(error)),
            true,
        ),
    }
}

/// The detail of a validation failure.
pub fn validation_detail(field: &str, reason: &str) -> (detail: String)
    ensures
        detail@ == "field="@ + field@ + "; reason="@ + reason@,
{
    let mut detail = String::from_str("field=");
    detail.append(field);
    detail.append("; reason=");
    detail.append(reason);
    detail
}

/// Maps a codec failure to the application error shown for it.
pub fn codec_app_error(error: ConfigCodecError) -> (result: AppError)
    ensures
        codec_app_error_spec(error@, result),
{
    let label = codec_error_label(&error);
    match error {
        ConfigCodecError::Migration(MigrationError::Future(version)) => AppError::config(
            AppErrorCode::ConfigUnsupportedVersion,
            AppErrorKind::Validation,
            "配置版本高于当前程序支持范围。",
            Some(concat2("schemaVersion=", decimal_string(version as u64).as_str())),
            false,
        ),
        ConfigCodecError::Migration(_) => AppError::config(
            AppErrorCode::ConfigUnsupportedVersion,
            AppErrorKind::Validation,
            "配置版本不受支持。",
            Some(concat2("kind=", label)),
            false,
        ),
        ConfigCodecError::Validation(e) => AppError::config(
            AppErrorCode::ConfigValidationFailed,
            AppErrorKind::Validation,
            "配置内容未通过校验。",
            Some(validation_detail(e.field, e.reason)),
            true,
        ),
        ConfigCodecError::Encode(_) => AppError::config(
            AppErrorCode::ConfigWriteFailed,
            AppErrorKind::System,
            "配置无法编码。",
            Some(String::from_str("stage=encode_config")),
            false,
        ),
        _ => AppError::config(
            AppErrorCode::ConfigParseFailed,
            AppErrorKind::Parse,
            "配置文件无法解析。",
            Some(concat2("kind=", label)),
            true,
        ),
    }
}

/// The application error for a filesystem failure: a permission failure is
/// reported as such, any other as I/O.
pub open spec fn io_app_error_spec(code: AppErrorCode, message: Seq<char>, error: ConfigIoError, recoverable: bool, result: AppError) -> bool {
    is_config_error(
        result,
        code,
        if error.kind is PermissionDenied { AppErrorKind::Permission } else { AppErrorKind::Io },
        message,
        Some(io_detail(error)),
        recoverable,
    )
}

/// Maps a filesystem failure to an application error.
pub fn io_app_error(code: AppErrorCode, message: &str, error: ConfigIoError, recoverable: bool) -> (result: AppError)
    ensures
        io_app_error_spec(code, message@, error, recoverable, result),
{
    let kind = if error.kind.is_permission_denied() { AppErrorKind::Permission } else { AppErrorKind::Io };
    AppError::config(code, kind, message, Some(error.detail()), recoverable)
}

/// The error for a path that import or export refuses.
pub fn invalid_path(message: &str) -> (result: AppError)
    ensures
        is_config_error(
            result,
            AppErrorCode::ConfigInvalidPath,
            AppErrorKind::Validation,
            message@,
            Some("stage=validate_config_path"@),
            true,
        ),
{
    AppError::config(
        AppErrorCode::ConfigInvalidPath,
        AppErrorKind::Validation,
        message,
        Some(String::from_str("stage=validate_config_path")),
        true,
    )
}

/// The error for a routine write while the configuration is read-only.
pub open spec fn is_read_only_error(result: AppError) -> bool {
    is_config_error(
        result,
        AppErrorCode::ConfigUnavailable,
        AppErrorKind::Io,
        "配置当前为只读状态。请先导入一份有效配置。"@,
        Some("stage=config_commit; persistence=readOnly"@),
        true,
    )
}

/// The error for a routine write while the configuration is read-only.
pub fn read_only_error() -> (result: AppError)
    ensures
        is_read_only_error(result),
{
    AppError::config(
        AppErrorCode::ConfigUnavailable,
        AppErrorKind::Io,
        "配置当前为只读状态。请先导入一份有效配置。",
        Some(String::from_str("stage=config_commit; persistence=readOnly")),
        true,
    )
}

/// The error for an import while the configuration directory is unavailable.
pub open spec fn is_unavailable_path_error(result: AppError) -> bool {
    is_config_error(
        result,
        AppErrorCode::ConfigUnavailable,
        AppErrorKind::Io,
        "应用配置目录不可用，当前无法导入配置。"@,
        Some("stage=config_import; app_config_path=unavailable"@),
        true,
    )
}

/// The error for an import while the configuration directory is unavailable.
pub fn unavailable_path_error() -> (result: AppError)
    ensures
        is_unavailable_path_error(result),
{
    AppError::config(
        AppErrorCode::ConfigUnavailable,
        AppErrorKind::Io,
        "应用配置目录不可用，当前无法导入配置。",
        Some(String::from_str("stage=config_import; app_config_path=unavailable")),
        true,
    )
}

/// The error for a configuration state that a panicking holder left behind.
pub fn state_lock_error() -> (result: AppError)
    ensures
        is_config_error(
            result,
            AppErrorCode::ConfigStateFailed,
            AppErrorKind::System,
            "配置状态暂时不可用。"@,
            Some("stage=config_state_lock; poisoned=true"@),
            true,
        ),
{
    AppError::config(
        AppErrorCode::ConfigStateFailed,
        AppErrorKind::System,
        "配置状态暂时不可用。",
        Some(String::from_str("stage=config_state_lock; poisoned=true")),
        true,
    )
}

} // verus!
