//! The configuration service: one authoritative snapshot, changed only by
//! whole-candidate commits that validate, encode and persist before the
//! snapshot moves.
use vstd::prelude::*;
use crate::config::codec::{CodecFailure, decode, decode_spec, decoded, encode, encode_spec, encoded};
use crate::config::model::{
    AppConfig, ConfigModel, KeymapConfig, UiConfig, WindowConfig, config_problem, default_config, default_ui,
    default_window, lemma_default_is_valid, problem_field, problem_reason, valid_config,
};
use crate::config::files::{FileCall, Recorded, calls_since};
use crate::config::persist::{PathSequence, PersistStage, failure_returned, recovery_failed_message, applied_all, extends, lemma_persisted_bytes_at_target, persist_args, persist_bytes, persist_run, persist_start};
use crate::config::snapshot::{
    ConfigNotice, ConfigNoticeCode, ConfigPersistence, ConfigSnapshot, NoticeModel, SnapshotModel, CONFIG_FILE_NAME,
    codec_app_error, codec_app_error_spec, fresh_model, fresh_snapshot, invalid_path, io_app_error, io_app_error_spec, is_read_only_error,
    is_unavailable_path_error, notice_model, notice_models, push_notice, pushed, read_only_error,
    unavailable_path_error, validation_detail,
};
use crate::config::startup::{lemma_decoded_is_valid, load_snapshot, load_trace, loaded, startup_state};
use crate::config::storage::{
    ConfigFileOps, ConfigIoError, file_name, file_name_of, is_absolute, join_path, joined_path, lowercase, parent_of,
    parent_path, path_is_absolute, to_lowercase,
};
use crate::config::text_form::{blank, is_blank};
use crate::error::{AppError, AppErrorCode, AppErrorKind, is_config_error, opt_view};
use crate::text::{starts_with, str_eq, str_eq_ignore_ascii_case};

verus! {

/// Complete config group accepted by reset commands.
#[derive(Clone, Copy, Debug, PartialEq, Eq, Structural)]
pub enum ConfigGroup {
    Window,
    Ui,
    Keymap,
    All,
}

/// OS path request generated for import and export commands.
#[derive(Debug, PartialEq, Eq)]
pub struct ConfigPathRequest {
    pub path: String,
}

/// Result of exporting the canonical configuration document.
#[derive(Debug, PartialEq, Eq)]
pub struct ConfigExportResult {
    pub path: String,
    pub bytes_written: u64,
}

/// Message that a recovery-failure notice carries once a later commit worked.
pub open spec fn recovered_message() -> Seq<char> {
    "上次配置替换恢复失败，最后有效备份仍保留在报告路径。"@
}

/// A notice as a successful commit keeps it.
pub open spec fn relabeled(n: NoticeModel) -> NoticeModel {
    if n.code == ConfigNoticeCode::ReplacementRecoveryFailed {
        NoticeModel { code: n.code, message: recovered_message(), detail: n.detail }
    } else {
        n
    }
}

/// The notices a successful commit keeps: unsupported-version and
/// persistence-unavailable notices go, recovery failures are relabelled.
pub open spec fn kept_notices(notices: Seq<NoticeModel>) -> Seq<NoticeModel>
    decreases notices.len(),
{
    if notices.len() == 0 {
        notices
    } else {
        let rest = kept_notices(notices.drop_last());
        let n = notices.last();
        if n.code == ConfigNoticeCode::UnsupportedVersion || n.code == ConfigNoticeCode::PersistenceUnavailable {
            rest
        } else {
            rest.push(relabeled(n))
        }
    }
}

proof fn lemma_kept_notices_len(notices: Seq<NoticeModel>)
    ensures
        kept_notices(notices).len() <= notices.len(),
    decreases notices.len(),
{
    if notices.len() > 0 {
        lemma_kept_notices_len(notices.drop_last());
    }
}

/// The snapshot after `candidate` was committed.
pub open spec fn committed(before: SnapshotModel, candidate: ConfigModel) -> SnapshotModel {
    SnapshotModel {
        revision: (before.revision + 1) as u64,
        config: candidate,
        persistence: ConfigPersistence::Ready,
        notices: kept_notices(before.notices),
    }
}

/// The snapshot after a replacement whose recovery failed: unchanged but
/// read-only, with the notice added.
pub open spec fn read_only_after(before: SnapshotModel, notice: NoticeModel) -> SnapshotModel {
    SnapshotModel {
        revision: before.revision,
        config: before.config,
        persistence: ConfigPersistence::ReadOnly,
        notices: pushed(before.notices, notice),
    }
}

/// The model of a command result that returns a snapshot.
pub open spec fn snapshot_result(result: Result<ConfigSnapshot, AppError>) -> Result<SnapshotModel, AppError> {
    match result {
        Ok(s) => Ok(s@),
        Err(e) => Err(e),
    }
}

/// A failed commit: the snapshot is unchanged, or read-only with one more
/// recovery-failure notice.
pub open spec fn failed_commit(before: SnapshotModel, after: SnapshotModel) -> bool {
    ||| after == before
    ||| exists|n: NoticeModel| n.code == ConfigNoticeCode::ReplacementRecoveryFailed && after == read_only_after(before, n)
}

/// Committing `candidate`: refused while read-only (unless allowed), refused
/// when invalid or when the revision counter is exhausted, both without any
/// change; otherwise either the candidate becomes the snapshot with the next
/// revision, or the commit fails as [`failed_commit`] says.
pub open spec fn commit_law(
    before: SnapshotModel,
    candidate: ConfigModel,
    allow_read_only: bool,
    after: SnapshotModel,
    result: Result<SnapshotModel, AppError>,
) -> bool {
    if before.persistence == ConfigPersistence::ReadOnly && !allow_read_only {
        &&& after == before
        &&& (result matches Err(e) && is_read_only_error(e))
    } else if config_problem(candidate) is Some {
        let p = config_problem(candidate)->0;
        &&& after == before
        &&& result matches Err(e) && is_config_error(
            e,
            AppErrorCode::ConfigValidationFailed,
            AppErrorKind::Validation,
            "配置内容未通过校验。"@,
            Some("field="@ + problem_field(p) + "; reason="@ + problem_reason(p)),
            true,
        )
    } else if before.revision == u64::MAX {
        &&& after == before
        &&& result matches Err(e) && is_config_error(
            e,
            AppErrorCode::ConfigStateFailed,
            AppErrorKind::System,
            "配置版本计数已达到上限。"@,
            Some("stage=revision_increment"@),
            false,
        )
    } else {
        ||| (after == committed(before, candidate) && result == Ok::<SnapshotModel, AppError>(after))
        ||| (result is Err && failed_commit(before, after))
    }
}

/// What a commit that passed its checks does with the files: the encoded
/// candidate goes to the live file through the persistence protocol (or,
/// when it cannot be encoded, no file is touched and the commit fails), and
/// the commit ends as the protocol ended: applied when the file was
/// installed or replaced; failed and unchanged otherwise, except that a
/// failure owing the read-only notice leaves the snapshot read-only.
pub open spec fn commit_through_files(
    before: SnapshotModel,
    candidate: ConfigModel,
    directory: Seq<char>,
    live: Seq<char>,
    names: PathSequence,
    made: Seq<FileCall>,
    after: SnapshotModel,
    result: Result<SnapshotModel, AppError>,
) -> bool {
    ||| (made.len() == 0 && after == before && result is Err && exists|e: CodecFailure|
        #[trigger] encode_spec(candidate, Err(e)))
    ||| exists|bytes: Seq<u8>|
        #[trigger] encode_spec(candidate, Ok(bytes)) && {
            let end = persist_run(
                persist_args(directory, live, bytes, "config.backup"@, names.process_id),
                persist_start(names.next),
                made,
            );
            match end.stage {
                PersistStage::Installed | PersistStage::Replaced => after == committed(before, candidate) && result
                    == Ok::<SnapshotModel, AppError>(after),
                PersistStage::Failed => failed_persisting(before, end.notice, after, result) && failure_returned(end, result),
                _ => false,
            }
        }
}

/// A commit whose persistence failed: the error is returned and the
/// snapshot kept; when the failure owes the read-only notice (a failed
/// restore after a replacement), the error is a replacement failure and the
/// snapshot turns read-only with the recovery-failure notice, whose detail
/// is the error's detail.
pub open spec fn failed_persisting(
    before: SnapshotModel,
    notice: bool,
    after: SnapshotModel,
    result: Result<SnapshotModel, AppError>,
) -> bool {
    match result {
        Err(e) => if notice {
            e.code == AppErrorCode::ConfigReplaceFailed && after == read_only_after(
                before,
                notice_model(ConfigNoticeCode::ReplacementRecoveryFailed, recovery_failed_message(), opt_view(e.detail)),
            )
        } else {
            after == before
        },
        Ok(_) => false,
    }
}

/// What a commit does with the files: nothing when it is refused (read-only
/// without leave, an invalid candidate, an exhausted revision counter),
/// else [`commit_through_files`].
pub open spec fn commit_files_law(
    before: SnapshotModel,
    candidate: ConfigModel,
    allow_read_only: bool,
    directory: Seq<char>,
    live: Seq<char>,
    names: PathSequence,
    made: Seq<FileCall>,
    after: SnapshotModel,
    result: Result<SnapshotModel, AppError>,
) -> bool {
    if (before.persistence == ConfigPersistence::ReadOnly && !allow_read_only) || config_problem(candidate) is Some
        || before.revision == u64::MAX {
        made.len() == 0
    } else {
        commit_through_files(before, candidate, directory, live, names, made, after, result)
    }
}

/// `result` is the refusal of an import or export path, with `message`.
pub open spec fn refused_path<T>(result: Result<T, AppError>, message: Seq<char>) -> bool {
    match result {
        Err(e) => is_config_error(
            e,
            AppErrorCode::ConfigInvalidPath,
            AppErrorKind::Validation,
            message,
            Some("stage=validate_config_path"@),
            true,
        ),
        Ok(_) => false,
    }
}

/// `result` reports the file operation failure `error` with `code` and
/// `message`.
pub open spec fn io_failed<T>(result: Result<T, AppError>, code: AppErrorCode, message: Seq<char>, error: ConfigIoError) -> bool {
    match result {
        Err(e) => io_app_error_spec(code, message, error, true, e),
        Ok(_) => false,
    }
}

/// `result` reports the codec failure `error`.
pub open spec fn codec_failed<T>(result: Result<T, AppError>, error: CodecFailure) -> bool {
    match result {
        Err(e) => codec_app_error_spec(error, e),
        Ok(_) => false,
    }
}

/// What reading the import source gave (`call`), and what followed: a
/// failed read is reported, bytes that do not decode are reported as the
/// codec failure, and a decoded document is committed (allowed while
/// read-only) by the remaining calls `rest`.
pub open spec fn import_read(
    path: Seq<char>,
    call: FileCall,
    rest: Seq<FileCall>,
    directory: Seq<char>,
    live: Seq<char>,
    names: PathSequence,
    before: SnapshotModel,
    after: SnapshotModel,
    result: Result<SnapshotModel, AppError>,
) -> bool {
    match call {
        FileCall::ReadBounded(read, Err(e)) => read == path && rest.len() == 0 && after == before && io_failed(
            result,
            AppErrorCode::ConfigImportFailed,
            "无法读取导入配置。"@,
            e,
        ),
        FileCall::ReadBounded(read, Ok(bytes)) => read == path && import_decoded(
            bytes,
            rest,
            directory,
            live,
            names,
            before,
            after,
            result,
        ),
        _ => false,
    }
}

/// What importing the bytes `bytes` does: their decoding decides; a
/// failure is reported with nothing more done, a document is committed.
pub open spec fn import_decoded(
    bytes: Seq<u8>,
    rest: Seq<FileCall>,
    directory: Seq<char>,
    live: Seq<char>,
    names: PathSequence,
    before: SnapshotModel,
    after: SnapshotModel,
    result: Result<SnapshotModel, AppError>,
) -> bool {
    exists|d: Result<ConfigModel, CodecFailure>|
        #[trigger] decode_spec(bytes, d) && match d {
            Err(e) => rest.len() == 0 && after == before && codec_failed(result, e),
            Ok(c) => commit_law(before, c, true, after, result) && commit_files_law(
                before,
                c,
                true,
                directory,
                live,
                names,
                rest,
                after,
                result,
            ),
        }
}

/// What an import of `path` does with the files (`made`) and the snapshot:
/// the path is checked as [`external_path_checked`] says and a refusal is
/// returned unchanged; an accepted path is read, and [`import_read`]
/// says what follows.
pub open spec fn import_trace(
    directory: Seq<char>,
    live: Seq<char>,
    names: PathSequence,
    path: Seq<char>,
    before: SnapshotModel,
    made: Seq<FileCall>,
    after: SnapshotModel,
    result: Result<SnapshotModel, AppError>,
) -> bool {
    exists|k: int, checked: Result<Seq<char>, AppError>|
        0 <= k <= made.len() && #[trigger] external_path_checked(directory, path, true, made.subrange(0, k), checked)
            && match checked {
            Err(e) => k == made.len() && after == before && result == Err::<SnapshotModel, AppError>(e),
            Ok(p) => k < made.len() && import_read(
                p,
                made[k],
                made.subrange(k + 1, made.len() as int),
                directory,
                live,
                names,
                before,
                after,
                result,
            ),
        }
}

/// What exporting `config` to the accepted path `path` does after the
/// directory check `call`: a directory or a failed check is refused; else
/// the encoding of `config` goes through the persistence protocol (the
/// calls `rest`) into the path's parent directory, and the export succeeds
/// with the encoded length exactly when the protocol installed or replaced
/// the file.
pub open spec fn export_written(
    path: Seq<char>,
    config: ConfigModel,
    names: PathSequence,
    call: FileCall,
    rest: Seq<FileCall>,
    result: Result<(Seq<char>, u64), AppError>,
) -> bool {
    match call {
        FileCall::PathIsDirectory(checked, Ok(true)) => checked == path && rest.len() == 0 && refused_path(
            result,
            "导出目标不能是目录。"@,
        ),
        FileCall::PathIsDirectory(checked, Err(e)) => checked == path && rest.len() == 0 && io_failed(
            result,
            AppErrorCode::ConfigExportFailed,
            "无法检查导出路径。"@,
            e,
        ),
        FileCall::PathIsDirectory(checked, Ok(false)) => checked == path && export_encoded(path, config, names, rest, result),
        _ => false,
    }
}

/// The export of the encoding of `config` to `path`, by the calls `rest`.
pub open spec fn export_encoded(
    path: Seq<char>,
    config: ConfigModel,
    names: PathSequence,
    rest: Seq<FileCall>,
    result: Result<(Seq<char>, u64), AppError>,
) -> bool {
    exists|r: Result<Seq<u8>, CodecFailure>|
        #[trigger] encode_spec(config, r) && match r {
            Err(e) => rest.len() == 0 && codec_failed(result, e),
            Ok(bytes) => export_persisted(path, bytes, names, rest, result),
        }
}

/// Writing `bytes` to `path` by the calls `rest`.
pub open spec fn export_persisted(
    path: Seq<char>,
    bytes: Seq<u8>,
    names: PathSequence,
    rest: Seq<FileCall>,
    result: Result<(Seq<char>, u64), AppError>,
) -> bool {
    match parent_path(path) {
        None => rest.len() == 0 && refused_path(result, "导出路径缺少父目录。"@),
        Some(parent) => {
            let end = persist_run(
                persist_args(parent, path, bytes, ".wubilex-export-backup"@, names.process_id),
                persist_start(names.next),
                rest,
            );
            match end.stage {
                PersistStage::Installed | PersistStage::Replaced => result == Ok::<(Seq<char>, u64), AppError>(
                    (path, bytes.len() as u64),
                ),
                PersistStage::Failed => failure_returned(end, result),
                _ => false,
            }
        },
    }
}

/// What an export of `config` to `path` does with the files (`made`): the
/// path is checked as [`external_path_checked`] says and a refusal is
/// returned; an accepted path goes on as [`export_written`] says.
pub open spec fn export_trace(
    directory: Seq<char>,
    names: PathSequence,
    path: Seq<char>,
    config: ConfigModel,
    made: Seq<FileCall>,
    result: Result<(Seq<char>, u64), AppError>,
) -> bool {
    exists|k: int, checked: Result<Seq<char>, AppError>|
        0 <= k <= made.len() && #[trigger] external_path_checked(directory, path, false, made.subrange(0, k), checked)
            && match checked {
            Err(e) => k == made.len() && result == Err::<(Seq<char>, u64), AppError>(e),
            Ok(p) => k < made.len() && export_written(
                p,
                config,
                names,
                made[k],
                made.subrange(k + 1, made.len() as int),
                result,
            ),
        }
}

/// The model of an export result.
pub open spec fn export_result(result: Result<ConfigExportResult, AppError>) -> Result<(Seq<char>, u64), AppError> {
    match result {
        Ok(r) => Ok((r.path@, r.bytes_written)),
        Err(e) => Err(e),
    }
}

/// A commit that succeeded wrote the encoded configuration to the live
/// file: on a file system where every operation does what it says, the
/// live file then holds the encoding of the committed configuration,
/// whatever it held before.
pub proof fn lemma_committed_config_on_disk(
    before: SnapshotModel,
    candidate: ConfigModel,
    directory: Seq<char>,
    live: Seq<char>,
    names: PathSequence,
    made: Seq<FileCall>,
    after: SnapshotModel,
    result: Result<SnapshotModel, AppError>,
    files: Map<Seq<char>, Seq<u8>>,
)
    requires
        commit_through_files(before, candidate, directory, live, names, made, after, result),
        result is Ok,
    ensures
        after == committed(before, candidate),
        exists|bytes: Seq<u8>|
            #[trigger] encode_spec(candidate, Ok(bytes)) && applied_all(files, made).contains_key(live) && applied_all(
                files,
                made,
            )[live] == bytes,
{
    let bytes = choose|bytes: Seq<u8>|
        #[trigger] encode_spec(candidate, Ok(bytes)) && {
            let end = persist_run(
                persist_args(directory, live, bytes, "config.backup"@, names.process_id),
                persist_start(names.next),
                made,
            );
            match end.stage {
                PersistStage::Installed | PersistStage::Replaced => after == committed(before, candidate) && result
                    == Ok::<SnapshotModel, AppError>(after),
                PersistStage::Failed => failed_persisting(before, end.notice, after, result) && failure_returned(end, result),
                _ => false,
            }
        };
    lemma_persisted_bytes_at_target(
        persist_args(directory, live, bytes, "config.backup"@, names.process_id),
        names.next,
        files,
        made,
    );
}

/// What every service state satisfies.
pub open spec fn state_ok(s: SnapshotModel) -> bool {
    &&& s.revision >= 1
    &&& s.notices.len() <= 8
    &&& valid_config(s.config)
}

/// `config` with `group` reset to its defaults.
pub open spec fn reset_group(config: ConfigModel, group: ConfigGroup) -> ConfigModel {
    match group {
        ConfigGroup::Window => ConfigModel { window: default_window(), ..config },
        ConfigGroup::Ui => ConfigModel { ui: default_ui(), ..config },
        ConfigGroup::Keymap => ConfigModel { keymap: Seq::empty(), ..config },
        ConfigGroup::All => default_config(),
    }
}

/// A restore of defaults that succeeded committed, with the next revision,
/// the defaults of the named group (of every group, for `All`) and kept the
/// other groups as they were: a restored keymap holds no override.
pub proof fn lemma_restored_group_is_default(
    before: SnapshotModel,
    group: ConfigGroup,
    after: SnapshotModel,
    result: Result<SnapshotModel, AppError>,
)
    requires
        commit_law(before, reset_group(before.config, group), false, after, result),
        result is Ok,
    ensures
        result == Ok::<SnapshotModel, AppError>(after),
        after.revision == before.revision + 1,
        after.config.window == (if group is Window || group is All {
            default_config().window
        } else {
            before.config.window
        }),
        after.config.ui == (if group is Ui || group is All {
            default_config().ui
        } else {
            before.config.ui
        }),
        (group is Keymap || group is All) ==> after.config.keymap.len() == 0,
        !(group is Keymap || group is All) ==> after.config.keymap == before.config.keymap,
        after.config.schema_version == (if group is All {
            default_config().schema_version
        } else {
            before.config.schema_version
        }),
{
}

/// Whether `name` (already lowercased) is one the configuration transaction
/// owns: the live file or a staging, backup or preserved-corrupt file.
pub open spec fn owned_config_name(name: Seq<char>) -> bool {
    ||| name == "config.toml"@
    ||| crate::text::has_prefix(name, "config.tmp-"@)
    ||| crate::text::has_prefix(name, "config.backup-"@)
    ||| crate::text::has_prefix(name, "config.corrupt-"@)
}

/// Tests [`owned_config_name`].
pub fn is_owned_config_name(name: &str) -> (owned: bool)
    ensures
        owned == owned_config_name(name@),
{
    str_eq(name, CONFIG_FILE_NAME) || starts_with(name, "config.tmp-") || starts_with(name, "config.backup-")
        || starts_with(name, "config.corrupt-")
}

/// Whether two paths name the same location for the Windows file system the
/// application targets (ASCII case is ignored).
pub fn paths_equal_for_platform(left: &str, right: &str) -> (equal: bool)
    ensures
        equal == crate::text::eq_ignore_ascii_case(left@, right@),
{
    str_eq_ignore_ascii_case(left, right)
}

/// Whether the resolved path `resolved` names a file the configuration
/// transaction owns directly inside the resolved directory: its parent is
/// that directory (ignoring ASCII case) and its lower-cased file name is an
/// owned name.
pub open spec fn owned_alias(resolved_directory: Seq<char>, resolved: Seq<char>) -> bool {
    match parent_path(resolved) {
        Some(parent) => crate::text::eq_ignore_ascii_case(parent, resolved_directory) && owned_config_name(
            match file_name_of(resolved) {
                Some(name) => lowercase(name),
                None => Seq::empty(),
            },
        ),
        None => false,
    }
}

/// Decides [`owned_alias`] for paths already resolved by the file system.
pub fn is_owned_alias(resolved_directory: &str, resolved: &str) -> (aliases: bool)
    ensures
        aliases == owned_alias(resolved_directory@, resolved@),
{
    let same_parent = match parent_of(resolved) {
        Some(parent) => paths_equal_for_platform(parent.as_str(), resolved_directory),
        None => false,
    };
    if !same_parent {
        return false;
    }
    let name = match file_name(resolved) {
        Some(name) => to_lowercase(name.as_str()),
        None => String::new(),
    };
    is_owned_config_name(name.as_str())
}

/// A resolution answer's path, or `fallback` when there is none.
pub open spec fn resolved_or(answer: Option<Seq<char>>, fallback: Seq<char>) -> Seq<char> {
    match answer {
        Some(path) => path,
        None => fallback,
    }
}

/// What resolving the parent of a missing `candidate` (`call`) gives: the
/// candidate's file name under the resolved parent, judged against `rd`.
pub open spec fn alias_by_parent(rd: Seq<char>, candidate: Seq<char>, call: FileCall, aliases: Result<bool, ConfigIoError>) -> bool {
    let parent = resolved_or(parent_path(candidate), candidate);
    match call {
        FileCall::Canonicalize(path, Err(e)) => path == parent && aliases == Err::<bool, ConfigIoError>(e),
        FileCall::Canonicalize(path, Ok(answer)) => path == parent && aliases == Ok::<bool, ConfigIoError>(
            owned_alias(
                rd,
                match file_name_of(candidate) {
                    Some(name) => joined_path(resolved_or(answer, parent), name),
                    None => resolved_or(answer, parent),
                },
            ),
        ),
        _ => false,
    }
}

/// What resolving `candidate` (the second call) gives, `rd` being the
/// resolved directory.
pub open spec fn alias_by_candidate(rd: Seq<char>, candidate: Seq<char>, made: Seq<FileCall>, aliases: Result<bool, ConfigIoError>) -> bool {
    match made[1] {
        FileCall::Canonicalize(path, Err(e)) => path == candidate && made.len() == 2 && aliases == Err::<bool, ConfigIoError>(e),
        FileCall::Canonicalize(path, Ok(Some(rc))) => path == candidate && made.len() == 2 && aliases == Ok::<
            bool,
            ConfigIoError,
        >(owned_alias(rd, rc)),
        FileCall::Canonicalize(path, Ok(None)) => path == candidate && made.len() == 3 && alias_by_parent(
            rd,
            candidate,
            made[2],
            aliases,
        ),
        _ => false,
    }
}

/// What judging `candidate` against `directory` does with the files: both
/// are resolved (a missing candidate through its parent), and the answer is
/// [`owned_alias`] of the resolved paths; a failed resolution is returned.
pub open spec fn alias_trace(directory: Seq<char>, candidate: Seq<char>, made: Seq<FileCall>, aliases: Result<bool, ConfigIoError>) -> bool {
    made.len() >= 1 && match made[0] {
        FileCall::Canonicalize(path, Err(e)) => path == directory && made.len() == 1 && aliases == Err::<bool, ConfigIoError>(e),
        FileCall::Canonicalize(path, Ok(answer)) => path == directory && made.len() >= 2 && alias_by_candidate(
            resolved_or(answer, directory),
            candidate,
            made,
            aliases,
        ),
        _ => false,
    }
}

/// The check of the kind of an accepted path (`made` being its calls): an
/// import source gets one directory query, and a directory or a failed
/// query is refused; an export path is accepted as it is here.
pub open spec fn kind_checked(
    value: Seq<char>,
    importing: bool,
    made: Seq<FileCall>,
    result: Result<Seq<char>, AppError>,
) -> bool {
    if importing {
        made.len() == 1 && match made[0] {
            FileCall::PathIsDirectory(path, Ok(true)) => path == value && refused_path(result, "导入来源不能是目录。"@),
            FileCall::PathIsDirectory(path, Ok(false)) => path == value && result == Ok::<Seq<char>, AppError>(value),
            FileCall::PathIsDirectory(path, Err(e)) => path == value && io_failed(
                result,
                AppErrorCode::ConfigImportFailed,
                "无法检查导入路径。"@,
                e,
            ),
            _ => false,
        }
    } else {
        made.len() == 0 && result == Ok::<Seq<char>, AppError>(value)
    }
}

/// The check against the owned files of `directory`: the calls of
/// [`alias_trace`] come first; a failed resolution is reported as an import
/// or export failure, an owned file is refused, and any other path goes on
/// to [`kind_checked`].
pub open spec fn owner_checked(
    directory: Seq<char>,
    value: Seq<char>,
    importing: bool,
    made: Seq<FileCall>,
    result: Result<Seq<char>, AppError>,
) -> bool {
    exists|k: int, aliases: Result<bool, ConfigIoError>|
        0 <= k <= made.len() && #[trigger] alias_trace(directory, value, made.subrange(0, k), aliases) && match aliases {
            Err(e) => k == made.len() && if importing {
                io_failed(result, AppErrorCode::ConfigImportFailed, "无法解析导入路径。"@, e)
            } else {
                io_failed(result, AppErrorCode::ConfigExportFailed, "无法解析导出路径。"@, e)
            },
            Ok(true) => k == made.len() && refused_path(result, "该路径属于应用配置事务，不能用于导入或导出。"@),
            Ok(false) => kind_checked(value, importing, made.subrange(k, made.len() as int), result),
        }
}

/// What checking an import (`importing`) or export path `value` does with
/// the files (`made`) and gives (`result`): a blank or relative path is
/// refused with no call; with a configuration directory, the path is held
/// against its owned files ([`owner_checked`]); else only its kind is
/// checked ([`kind_checked`]). An accepted path comes back as given.
pub open spec fn external_path_checked(
    directory: Seq<char>,
    value: Seq<char>,
    importing: bool,
    made: Seq<FileCall>,
    result: Result<Seq<char>, AppError>,
) -> bool {
    if blank(value) || !path_is_absolute(value) {
        made.len() == 0 && refused_path(result, "配置文件路径必须是非空绝对路径。"@)
    } else if directory.len() > 0 {
        owner_checked(directory, value, importing, made, result)
    } else {
        kind_checked(value, importing, made, result)
    }
}

/// The model of a checked path.
pub open spec fn path_result(result: Result<String, AppError>) -> Result<Seq<char>, AppError> {
    match result {
        Ok(p) => Ok(p@),
        Err(e) => Err(e),
    }
}

/// Whether `candidate` resolves to a file the configuration transaction
/// owns in `directory`: both paths are resolved through the file
/// operations (a missing candidate by its resolved parent and its file
/// name), and the resolved paths are judged by [`is_owned_alias`].
pub fn aliases_owned_config_path<F: ConfigFileOps>(files: &mut Recorded<F>, directory: &str, candidate: &str) -> (aliases: Result<bool, ConfigIoError>)
    ensures
        extends(old(files).calls(), final(files).calls()),
        alias_trace(directory@, candidate@, calls_since(final(files).calls(), old(files).calls().len() as int), aliases),
{
    let ghost start = files.calls().len() as int;
    let first = files.canonicalize_existing(directory);
    let ghost made1 = calls_since(files.calls(), start);
    assert(made1[0] == files.calls().last());
    let resolved_directory = match first {
        Ok(Some(path)) => path,
        Ok(None) => String::from_str(directory),
        Err(error) => return Err(error),
    };
    let second = files.canonicalize_existing(candidate);
    let ghost made2 = calls_since(files.calls(), start);
    assert(made2 =~= made1.push(files.calls().last()));
    let resolved_candidate = match second {
        Err(error) => return Err(error),
        Ok(Some(path)) => path,
        Ok(None) => {
            let parent = match parent_of(candidate) {
                Some(parent) => parent,
                None => String::from_str(candidate),
            };
            let third = files.canonicalize_existing(parent.as_str());
            let ghost made3 = calls_since(files.calls(), start);
            assert(made3 =~= made2.push(files.calls().last()));
            let resolved_parent = match third {
                Ok(Some(path)) => path,
                Ok(None) => parent,
                Err(error) => return Err(error),
            };
            match file_name(candidate) {
                Some(name) => join_path(resolved_parent.as_str(), name.as_str()),
                None => resolved_parent,
            }
        },
    };
    Ok(is_owned_alias(resolved_directory.as_str(), resolved_candidate.as_str()))
}

/// Configuration service with an injectable filesystem boundary. Callers
/// that share it serialize access (one `&mut` at a time).
pub struct ConfigService<F: ConfigFileOps> {
    directory: String,
    live_path: String,
    ops: F,
    calls: Ghost<Seq<FileCall>>,
    names: PathSequence,
    state: ConfigSnapshot,
}

impl<F: ConfigFileOps> ConfigService<F> {
    #[verifier::type_invariant]
    spec fn well_formed(&self) -> bool {
        state_ok(self.state@)
    }

    /// The current snapshot.
    pub closed spec fn current(&self) -> SnapshotModel {
        self.state@
    }

    /// Every file operation the service has made, oldest first.
    pub closed spec fn file_calls(&self) -> Seq<FileCall> {
        self.calls@
    }

    /// The owned-name counter the next file operations draw from.
    pub closed spec fn owned_names(&self) -> PathSequence {
        self.names
    }

    /// The configuration directory.
    pub closed spec fn directory(&self) -> Seq<char> {
        self.directory@
    }

    /// The live configuration file.
    pub closed spec fn live_path(&self) -> Seq<char> {
        self.live_path@
    }

    /// Whether the service has a configuration directory.
    pub closed spec fn has_directory(&self) -> bool {
        self.directory@.len() > 0 && self.live_path@.len() > 0
    }

    /// Loads startup state; a configuration failure never aborts startup.
    /// `process_id` makes the owned file names of this process unique.
    pub fn load(directory: String, ops: F, process_id: u32) -> (service: Self)
        ensures
            startup_state(service.current()),
            loaded(service.current(), directory@, joined_path(directory@, CONFIG_FILE_NAME@), process_id),
            load_trace(
                directory@,
                joined_path(directory@, CONFIG_FILE_NAME@),
                process_id,
                0,
                service.file_calls(),
                service.current(),
            ),
            service.directory() == directory@,
            service.live_path() == joined_path(directory@, CONFIG_FILE_NAME@),
    {
        let live_path = join_path(directory.as_str(), CONFIG_FILE_NAME);
        let mut names = PathSequence { process_id, next: 0 };
        let mut files = Recorded::new(&ops);
        let state = load_snapshot(&mut files, &mut names, directory.as_str(), live_path.as_str());
        let calls = files.record();
        assert(calls_since(calls@, 0) =~= calls@);
        ConfigService { directory, live_path, ops, calls, names, state }
    }

    /// A read-only default service for an unavailable configuration path.
    pub fn unavailable(detail: String, ops: F, process_id: u32) -> (service: Self)
        ensures
            service.current() == fresh_model(
                default_config(),
                ConfigPersistence::ReadOnly,
                seq![notice_model(
                    ConfigNoticeCode::PersistenceUnavailable,
                    "无法访问配置目录，已使用只读默认配置。"@,
                    Some(detail@),
                )],
            ),
            !service.has_directory(),
    {
        let ghost detail_text = detail@;
        let notice = ConfigNotice::new(
            ConfigNoticeCode::PersistenceUnavailable,
            "无法访问配置目录，已使用只读默认配置。",
            Some(detail),
        );
        let notices = vec![notice];
        assert(notice_models(notices@) =~= seq![notice@]);
        proof { lemma_default_is_valid(); }
        let state = fresh_snapshot(AppConfig::default(), ConfigPersistence::ReadOnly, notices);
        ConfigService {
            directory: String::new(),
            live_path: String::new(),
            ops,
            calls: Ghost(Seq::empty()),
            names: PathSequence { process_id, next: 0 },
            state,
        }
    }

    /// A copy of the current snapshot.
    pub fn snapshot(&self) -> (snapshot: ConfigSnapshot)
        ensures
            snapshot@ == self.current(),
    {
        self.state.clone()
    }

    /// Replaces the window group.
    pub fn update_window(&mut self, window: WindowConfig) -> (result: Result<ConfigSnapshot, AppError>)
        ensures
            commit_law(
                old(self).current(),
                ConfigModel { window, ..old(self).current().config },
                false,
                final(self).current(),
                snapshot_result(result),
            ),
            extends(old(self).file_calls(), final(self).file_calls()),
            commit_files_law(
                old(self).current(),
                ConfigModel { window, ..old(self).current().config },
                false,
                old(self).directory(),
                old(self).live_path(),
                old(self).owned_names(),
                calls_since(final(self).file_calls(), old(self).file_calls().len() as int),
                final(self).current(),
                snapshot_result(result),
            ),
    {
        proof { use_type_invariant(&*self); }
        let mut candidate = self.state.config.clone();
        candidate.window = window;
        self.commit(candidate, false)
    }

    /// Replaces the ui group.
    pub fn update_ui(&mut self, ui: UiConfig) -> (result: Result<ConfigSnapshot, AppError>)
        ensures
            commit_law(
                old(self).current(),
                ConfigModel { ui, ..old(self).current().config },
                false,
                final(self).current(),
                snapshot_result(result),
            ),
            extends(old(self).file_calls(), final(self).file_calls()),
            commit_files_law(
                old(self).current(),
                ConfigModel { ui, ..old(self).current().config },
                false,
                old(self).directory(),
                old(self).live_path(),
                old(self).owned_names(),
                calls_since(final(self).file_calls(), old(self).file_calls().len() as int),
                final(self).current(),
                snapshot_result(result),
            ),
    {
        proof { use_type_invariant(&*self); }
        let mut candidate = self.state.config.clone();
        candidate.ui = ui;
        self.commit(candidate, false)
    }

    /// Replaces the keymap group.
    pub fn update_keymap(&mut self, keymap: KeymapConfig) -> (result: Result<ConfigSnapshot, AppError>)
        ensures
            commit_law(
                old(self).current(),
                ConfigModel { keymap: keymap@, ..old(self).current().config },
                false,
                final(self).current(),
                snapshot_result(result),
            ),
            extends(old(self).file_calls(), final(self).file_calls()),
            commit_files_law(
                old(self).current(),
                ConfigModel { keymap: keymap@, ..old(self).current().config },
                false,
                old(self).directory(),
                old(self).live_path(),
                old(self).owned_names(),
                calls_since(final(self).file_calls(), old(self).file_calls().len() as int),
                final(self).current(),
                snapshot_result(result),
            ),
    {
        proof { use_type_invariant(&*self); }
        let mut candidate = self.state.config.clone();
        candidate.keymap = keymap;
        self.commit(candidate, false)
    }

    /// Resets one group, or all of them, to the defaults.
    pub fn restore_defaults(&mut self, group: ConfigGroup) -> (result: Result<ConfigSnapshot, AppError>)
        ensures
            commit_law(
                old(self).current(),
                reset_group(old(self).current().config, group),
                false,
                final(self).current(),
                snapshot_result(result),
            ),
            extends(old(self).file_calls(), final(self).file_calls()),
            commit_files_law(
                old(self).current(),
                reset_group(old(self).current().config, group),
                false,
                old(self).directory(),
                old(self).live_path(),
                old(self).owned_names(),
                calls_since(final(self).file_calls(), old(self).file_calls().len() as int),
                final(self).current(),
                snapshot_result(result),
            ),
    {
        proof { use_type_invariant(&*self); }
        let mut candidate = self.state.config.clone();
        let defaults = AppConfig::default();
        match group {
            ConfigGroup::Window => candidate.window = defaults.window,
            ConfigGroup::Ui => candidate.ui = defaults.ui,
            ConfigGroup::Keymap => candidate.keymap = defaults.keymap,
            ConfigGroup::All => candidate = defaults,
        }
        self.commit(candidate, false)
    }

    /// Imports one complete document; fields it leaves out take their
    /// defaults rather than current values. Allowed while read-only.
    pub fn import(&mut self, request: ConfigPathRequest) -> (result: Result<ConfigSnapshot, AppError>)
        ensures
            !old(self).has_directory() ==> final(self).current() == old(self).current() && final(self).file_calls()
                == old(self).file_calls(),
            !old(self).has_directory() ==> (result matches Err(e) && is_unavailable_path_error(e)),
            result is Err ==> failed_commit(old(self).current(), final(self).current()),
            result matches Ok(s) ==> s@ == final(self).current(),
            extends(old(self).file_calls(), final(self).file_calls()),
            old(self).has_directory() ==> import_trace(
                old(self).directory(),
                old(self).live_path(),
                old(self).owned_names(),
                request.path@,
                old(self).current(),
                calls_since(final(self).file_calls(), old(self).file_calls().len() as int),
                final(self).current(),
                snapshot_result(result),
            ),
    {
        proof { use_type_invariant(&*self); }
        if self.directory.unicode_len() == 0 || self.live_path.unicode_len() == 0 {
            return Err(unavailable_path_error());
        }
        let ghost start = self.calls@.len() as int;
        let mut files = Recorded::resume(&self.ops, self.calls);
        let validated = Self::validate_external_path(&mut files, self.directory.as_str(), request.path.as_str(), true);
        let ghost checked = path_result(validated);
        let ghost k = files.calls().len() - start;
        let ghost validated_calls = files.calls();
        proof {
            let made = calls_since(files.calls(), start);
            assert(made.subrange(0, k) =~= made);
        }
        let path = match validated {
            Ok(path) => path,
            Err(error) => {
                self.calls = files.record();
                proof {
                    let made = calls_since(self.calls@, start);
                    assert(external_path_checked(self.directory@, request.path@, true, made.subrange(0, k), checked));
                }
                return Err(error);
            },
        };
        let read = files.read_bounded(path.as_str());
        self.calls = files.record();
        let ghost read_call = self.calls@.last();
        proof {
            let made = calls_since(self.calls@, start);
            assert(made.subrange(0, k) =~= calls_since(validated_calls, start));
            assert(made[k] == read_call);
        }
        let bytes = match read {
            Ok(bytes) => bytes,
            Err(error) => {
                let result = Err(io_app_error(AppErrorCode::ConfigImportFailed, "无法读取导入配置。", error, true));
                proof {
                    let made = calls_since(self.calls@, start);
                    assert(made.subrange(k + 1, made.len() as int) =~= Seq::<FileCall>::empty());
                    assert(external_path_checked(self.directory@, request.path@, true, made.subrange(0, k), checked));
                }
                return result;
            },
        };
        let decoded_import = decode(bytes.as_slice());
        assert(decode_spec(bytes@, decoded(decoded_import)));
        let candidate = match decoded_import {
            Ok(candidate) => candidate,
            Err(error) => {
                let ghost failure = error@;
                let result = Err(codec_app_error(error));
                proof {
                    let made = calls_since(self.calls@, start);
                    assert(made.subrange(k + 1, made.len() as int) =~= Seq::<FileCall>::empty());
                    assert(decode_spec(bytes@, Err(failure)));
                    assert(external_path_checked(self.directory@, request.path@, true, made.subrange(0, k), checked));
                }
                return result;
            },
        };
        proof { lemma_decoded_is_valid(bytes@, candidate@); }
        let ghost read_bytes = bytes@;
        let ghost imported = candidate@;
        let ghost before_commit = self.calls@;
        let result = self.commit(candidate, true);
        proof {
            let made = calls_since(self.calls@, start);
            assert(made.subrange(k + 1, made.len() as int) =~= calls_since(self.calls@, before_commit.len() as int));
            assert(made.subrange(0, k) =~= calls_since(validated_calls, start));
            assert(made[k] == read_call);
            assert(made[k] == before_commit[before_commit.len() - 1]);
            assert(decode_spec(read_bytes, Ok(imported)));
            assert(external_path_checked(old(self).directory@, request.path@, true, made.subrange(0, k), checked));
        }
        result
    }

    /// Exports only the canonical document, without runtime metadata. The
    /// snapshot does not change.
    pub fn export(&mut self, request: ConfigPathRequest) -> (result: Result<ConfigExportResult, AppError>)
        ensures
            final(self).current() == old(self).current(),
            extends(old(self).file_calls(), final(self).file_calls()),
            export_trace(
                old(self).directory(),
                old(self).owned_names(),
                request.path@,
                old(self).current().config,
                calls_since(final(self).file_calls(), old(self).file_calls().len() as int),
                export_result(result),
            ),
    {
        proof { use_type_invariant(&*self); }
        let ghost start = self.calls@.len() as int;
        let mut files = Recorded::resume(&self.ops, self.calls);
        let validated = Self::validate_external_path(&mut files, self.directory.as_str(), request.path.as_str(), false);
        let ghost checked = path_result(validated);
        let ghost k = files.calls().len() - start;
        let ghost validated_calls = files.calls();
        proof {
            let made = calls_since(files.calls(), start);
            assert(made.subrange(0, k) =~= made);
        }
        let path = match validated {
            Ok(path) => path,
            Err(error) => {
                self.calls = files.record();
                proof {
                    let made = calls_since(self.calls@, start);
                    assert(external_path_checked(self.directory@, request.path@, false, made.subrange(0, k), checked));
                }
                return Err(error);
            },
        };
        let kind = files.path_is_directory(path.as_str());
        let ghost kind_call = files.calls().last();
        let ghost after_kind = files.calls();
        proof {
            let made = calls_since(files.calls(), start);
            assert(made.subrange(0, k) =~= calls_since(validated_calls, start));
            assert(made[k] == kind_call);
            assert(external_path_checked(self.directory@, request.path@, false, made.subrange(0, k), checked));
        }
        match kind {
            Ok(false) => {},
            Ok(true) => {
                self.calls = files.record();
                proof {
                    let made = calls_since(self.calls@, start);
                    assert(made.subrange(k + 1, made.len() as int) =~= Seq::<FileCall>::empty());
                }
                return Err(invalid_path("导出目标不能是目录。"));
            },
            Err(error) => {
                self.calls = files.record();
                proof {
                    let made = calls_since(self.calls@, start);
                    assert(made.subrange(k + 1, made.len() as int) =~= Seq::<FileCall>::empty());
                }
                return Err(io_app_error(AppErrorCode::ConfigExportFailed, "无法检查导出路径。", error, true));
            },
        }
        let encoded_config = encode(&self.state.config);
        assert(encode_spec(old(self).current().config, encoded(encoded_config)));
        let bytes = match encoded_config {
            Ok(bytes) => bytes,
            Err(error) => {
                let ghost failure = error@;
                self.calls = files.record();
                proof {
                    let made = calls_since(self.calls@, start);
                    assert(made.subrange(k + 1, made.len() as int) =~= Seq::<FileCall>::empty());
                    assert(encode_spec(old(self).current().config, Err(failure)));
                }
                return Err(codec_app_error(error));
            },
        };
        assert(encode_spec(old(self).current().config, Ok(bytes@)));
        let parent = match parent_of(path.as_str()) {
            Some(parent) => parent,
            None => {
                self.calls = files.record();
                proof {
                    let made = calls_since(self.calls@, start);
                    assert(made.subrange(k + 1, made.len() as int) =~= Seq::<FileCall>::empty());
                }
                return Err(invalid_path("导出路径缺少父目录。"));
            },
        };
        let mut names = self.names;
        let outcome = persist_bytes(&mut files, &mut names, parent.as_str(), path.as_str(), bytes.as_slice(), ".wubilex-export-backup");
        self.calls = files.record();
        self.names = names;
        proof {
            let made = calls_since(self.calls@, start);
            assert(made.subrange(k + 1, made.len() as int) =~= calls_since(self.calls@, after_kind.len() as int));
            assert(made.subrange(0, k) =~= calls_since(validated_calls, start));
            assert(made[k] == kind_call);
        }
        match outcome {
            Ok(_) => {},
            Err(failure) => return Err(failure.error),
        }
        Ok(ConfigExportResult { path, bytes_written: bytes.len() as u64 })
    }

    fn commit(&mut self, candidate: AppConfig, allow_read_only: bool) -> (result: Result<ConfigSnapshot, AppError>)
        ensures
            commit_law(old(self).current(), candidate@, allow_read_only, final(self).current(), snapshot_result(result)),
            extends(old(self).file_calls(), final(self).file_calls()),
            commit_files_law(
                old(self).current(),
                candidate@,
                allow_read_only,
                old(self).directory(),
                old(self).live_path(),
                old(self).owned_names(),
                calls_since(final(self).file_calls(), old(self).file_calls().len() as int),
                final(self).current(),
                snapshot_result(result),
            ),
    {
        proof { use_type_invariant(&*self); }
        if self.state.persistence == ConfigPersistence::ReadOnly && !allow_read_only {
            return Err(read_only_error());
        }
        self.commit_locked(candidate)
    }

    fn commit_locked(&mut self, candidate: AppConfig) -> (result: Result<ConfigSnapshot, AppError>)
        ensures
            commit_law(old(self).current(), candidate@, true, final(self).current(), snapshot_result(result)),
            extends(old(self).file_calls(), final(self).file_calls()),
            commit_files_law(
                old(self).current(),
                candidate@,
                true,
                old(self).directory(),
                old(self).live_path(),
                old(self).owned_names(),
                calls_since(final(self).file_calls(), old(self).file_calls().len() as int),
                final(self).current(),
                snapshot_result(result),
            ),
    {
        proof { use_type_invariant(&*self); }
        match candidate.validate() {
            Err(error) => {
                return Err(AppError::config(
                    AppErrorCode::ConfigValidationFailed,
                    AppErrorKind::Validation,
                    "配置内容未通过校验。",
                    Some(validation_detail(error.field, error.reason)),
                    true,
                ));
            },
            Ok(()) => {},
        }
        let next_revision = match self.state.revision.checked_add(1) {
            Some(revision) => revision,
            None => {
                return Err(AppError::config(
                    AppErrorCode::ConfigStateFailed,
                    AppErrorKind::System,
                    "配置版本计数已达到上限。",
                    Some(String::from_str("stage=revision_increment")),
                    false,
                ));
            },
        };
        let encoded_candidate = encode(&candidate);
        assert(encode_spec(candidate@, encoded(encoded_candidate)));
        let bytes = match encoded_candidate {
            Ok(bytes) => bytes,
            Err(error) => {
                assert(encode_spec(candidate@, Err(error@)));
                assert(calls_since(self.calls@, self.calls@.len() as int) =~= Seq::<FileCall>::empty());
                return Err(codec_app_error(error));
            },
        };
        assert(encode_spec(candidate@, Ok(bytes@)));
        let mut names = self.names;
        let mut files = Recorded::resume(&self.ops, self.calls);
        let outcome = persist_bytes(
            &mut files,
            &mut names,
            self.directory.as_str(),
            self.live_path.as_str(),
            bytes.as_slice(),
            "config.backup",
        );
        self.calls = files.record();
        self.names = names;
        match outcome {
            Ok(_) => {
                let notices = keep_notices(&self.state.notices);
                proof { lemma_kept_notices_len(notice_models(self.state.notices@)); }
                self.state = ConfigSnapshot {
                    revision: next_revision,
                    config: candidate,
                    persistence: ConfigPersistence::Ready,
                    notices,
                };
                Ok(self.state.clone())
            },
            Err(failure) => {
                match failure.read_only_notice {
                    Some(notice) => {
                        let ghost n = notice@;
                        let mut notices = crate::config::snapshot::clone_notices(&self.state.notices);
                        push_notice(&mut notices, notice);
                        let state = ConfigSnapshot {
                            revision: self.state.revision,
                            config: self.state.config.clone(),
                            persistence: ConfigPersistence::ReadOnly,
                            notices,
                        };
                        self.state = state;
                        assert(self.state@ == read_only_after(old(self).current(), n));
                    },
                    None => {},
                }
                Err(failure.error)
            },
        }
    }

    /// Checks an import or export path: non-blank and absolute, not one of
    /// the transaction's own files, and (for an import) not a directory.
    fn validate_external_path(files: &mut Recorded<F>, directory: &str, value: &str, importing: bool) -> (path: Result<String, AppError>)
        ensures
            extends(old(files).calls(), final(files).calls()),
            external_path_checked(
                directory@,
                value@,
                importing,
                calls_since(final(files).calls(), old(files).calls().len() as int),
                path_result(path),
            ),
            path matches Ok(p) ==> p@ == value@,
    {
        let ghost start = files.calls().len() as int;
        if is_blank(value) || !is_absolute(value) {
            assert(calls_since(files.calls(), start) =~= Seq::<FileCall>::empty());
            return Err(invalid_path("配置文件路径必须是非空绝对路径。"));
        }
        if directory.unicode_len() > 0 {
            let aliases = aliases_owned_config_path(files, directory, value);
            let ghost mid = files.calls();
            let ghost answer = aliases;
            let checked = match aliases {
                Ok(true) => Err(invalid_path("该路径属于应用配置事务，不能用于导入或导出。")),
                Ok(false) => Self::check_kind(files, value, importing),
                Err(error) => {
                    if importing {
                        Err(io_app_error(AppErrorCode::ConfigImportFailed, "无法解析导入路径。", error, true))
                    } else {
                        Err(io_app_error(AppErrorCode::ConfigExportFailed, "无法解析导出路径。", error, true))
                    }
                },
            };
            proof {
                let made = calls_since(files.calls(), start);
                let k = mid.len() - start;
                assert(made.subrange(0, k) =~= calls_since(mid, start));
                assert(made.subrange(k, made.len() as int) =~= calls_since(files.calls(), mid.len() as int));
                assert(alias_trace(directory@, value@, made.subrange(0, k), answer));
            }
            checked
        } else {
            Self::check_kind(files, value, importing)
        }
    }

    /// Refuses an import source that is a directory; an export path is not
    /// checked here.
    fn check_kind(files: &mut Recorded<F>, value: &str, importing: bool) -> (path: Result<String, AppError>)
        ensures
            extends(old(files).calls(), final(files).calls()),
            kind_checked(value@, importing, calls_since(final(files).calls(), old(files).calls().len() as int), path_result(path)),
            path matches Ok(p) ==> p@ == value@,
    {
        let ghost start = files.calls().len() as int;
        if importing {
            let kind = files.path_is_directory(value);
            assert(calls_since(files.calls(), start) =~= seq![files.calls().last()]);
            match kind {
                Ok(true) => return Err(invalid_path("导入来源不能是目录。")),
                Ok(false) => {},
                Err(error) => {
                    return Err(io_app_error(AppErrorCode::ConfigImportFailed, "无法检查导入路径。", error, true));
                },
            }
        } else {
            assert(calls_since(files.calls(), start) =~= Seq::<FileCall>::empty());
        }
        Ok(String::from_str(value))
    }
}

/// The notices a successful commit keeps.
fn keep_notices(notices: &Vec<ConfigNotice>) -> (kept: Vec<ConfigNotice>)
    ensures
        notice_models(kept@) == kept_notices(notice_models(notices@)),
{
    let ghost all = notice_models(notices@);
    let mut kept: Vec<ConfigNotice> = Vec::new();
    let mut i: usize = 0;
    while i < notices.len()
        invariant
            i <= notices@.len(),
            all == notice_models(notices@),
            notice_models(kept@) == kept_notices(all.take(i as int)),
        decreases notices@.len() - i,
    {
        let notice = &notices[i];
        assert(all.take(i + 1).drop_last() =~= all.take(i as int));
        assert(all.take(i + 1).last() == notice@);
        if notice.code == ConfigNoticeCode::UnsupportedVersion || notice.code == ConfigNoticeCode::PersistenceUnavailable {
        } else {
            let mut copy = notice.clone();
            if copy.code == ConfigNoticeCode::ReplacementRecoveryFailed {
                copy.message = String::from_str("上次配置替换恢复失败，最后有效备份仍保留在报告路径。");
            }
            let ghost before = kept@;
            kept.push(copy);
            assert(kept@ == before.push(copy));
            assert(notice_models(kept@) =~= notice_models(before).push(relabeled(notice@)));
        }
        i += 1;
    }
    assert(all.take(notices@.len() as int) =~= all);
    kept
}

} // verus!
