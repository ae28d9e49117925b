//! Transactional replacement of a file: stage, write, flush, sync, close,
//! then install or replace with an owned backup, cleaning up on failure.
use vstd::prelude::*;
use crate::config::snapshot::{ConfigNotice, ConfigNoticeCode, NoticeModel, io_app_error, notice_model};
use crate::config::files::{FileCall, Recorded, calls_since};
use crate::config::storage::{
    ConfigFileOps, ConfigIoError, ReplaceFileError, ReplacementDisposition, disposition_text, io_detail, join_path,
    joined_path,
};
use crate::error::{
    AppError, AppErrorCode, AppErrorKind, RequirementModule, bounded_detail, io_kind_name, is_config_error, opt_view,
    MAX_ERROR_DETAIL_CHARS,
};
use crate::text::{decimal, decimal_string, take_chars, truncate_chars};

verus! {

/// How many fresh names are tried before giving up.
pub const UNIQUE_PATH_ATTEMPTS: usize = 16;

/// The source of unique owned file names: the process id and a counter.
#[derive(Clone, Copy, Debug)]
pub struct PathSequence {
    pub process_id: u32,
    pub next: u64,
}

/// The counter after one name was taken (it wraps, as an atomic add does).
pub open spec fn advanced(next: u64) -> u64 {
    if next == u64::MAX { 0 } else { (next + 1) as u64 }
}

/// The counter after `count` names were taken.
pub open spec fn advanced_times(next: u64, count: nat) -> u64
    decreases count,
{
    if count == 0 {
        next
    } else {
        advanced(advanced_times(next, (count - 1) as nat))
    }
}

/// Taking `first` names and then `second` more takes `first + second`.
proof fn lemma_advanced_times_add(next: u64, first: nat, second: nat)
    ensures
        advanced_times(advanced_times(next, first), second) == advanced_times(next, first + second),
    decreases second,
{
    if second > 0 {
        lemma_advanced_times_add(next, first, (second - 1) as nat);
        assert(advanced_times(next, first + second) == advanced(advanced_times(next, (first + second - 1) as nat)));
    }
}

/// `after` took between `low` and `high` names from `before`, of the same
/// process.
pub open spec fn drew_names(before: PathSequence, after: PathSequence, low: nat, high: nat) -> bool {
    &&& after.process_id == before.process_id
    &&& exists|count: nat| low <= count <= high && after.next == #[trigger] advanced_times(before.next, count)
}

/// `{prefix}-{process}-{sequence}.{extension}`.
pub open spec fn unique_name(prefix: Seq<char>, process_id: u32, sequence: u64, extension: Seq<char>) -> Seq<char> {
    prefix + "-"@ + decimal(process_id as nat) + "-"@ + decimal(sequence as nat) + "."@ + extension
}

/// `path` is one of this process's unique owned names in `directory`.
pub open spec fn owned_unique_path(
    path: Seq<char>,
    directory: Seq<char>,
    prefix: Seq<char>,
    process_id: u32,
    extension: Seq<char>,
) -> bool {
    exists|sequence: u64| path == joined_path(directory, #[trigger] unique_name(prefix, process_id, sequence, extension))
}


// ------------------------------------------------------------ the protocol

/// What a persistence is asked to do.
pub struct PersistArgs {
    pub directory: Seq<char>,
    pub target: Seq<char>,
    pub bytes: Seq<u8>,
    pub backup_prefix: Seq<char>,
    pub process_id: u32,
}

/// The request to write `bytes` to `target` in `directory`.
pub open spec fn persist_args(
    directory: Seq<char>,
    target: Seq<char>,
    bytes: Seq<u8>,
    backup_prefix: Seq<char>,
    process_id: u32,
) -> PersistArgs {
    PersistArgs { directory, target, bytes, backup_prefix, process_id }
}

/// Where a persistence stands between two file operations.
pub enum PersistStage {
    Staging,
    Writing,
    Flushing,
    Syncing,
    Closing,
    ClosingAfterFailure,
    RemovingAfterFailure,
    CheckingTarget,
    Installing,
    SelectingBackup,
    Replacing,
    Restoring,
    Installed,
    Replaced,
    Failed,
    Stuck,
}

/// The error a failed persistence reports, as values: its code, kind,
/// message and detail (before the detail is bounded). It is always a
/// recoverable configuration error.
pub struct ErrorModel {
    pub code: AppErrorCode,
    pub kind: AppErrorKind,
    pub message: Seq<char>,
    pub detail: Seq<char>,
}

/// `error` is the error `m` describes.
pub open spec fn reports(error: AppError, m: ErrorModel) -> bool {
    is_config_error(error, m.code, m.kind, m.message, Some(m.detail), true)
}

/// The error for the failed file operation `e`: `code` and `message`, the
/// kind from the failure, the failure's evidence as detail.
pub open spec fn io_error_model(code: AppErrorCode, message: Seq<char>, e: ConfigIoError) -> ErrorModel {
    ErrorModel {
        code,
        kind: if e.kind is PermissionDenied { AppErrorKind::Permission } else { AppErrorKind::Io },
        message,
        detail: io_detail(e),
    }
}

/// An I/O error with a fixed message and detail.
pub open spec fn fixed_error_model(code: AppErrorCode, message: Seq<char>, detail: Seq<char>) -> ErrorModel {
    ErrorModel { code, kind: AppErrorKind::Io, message, detail }
}

/// The evidence of a failed write or flush of the staging file.
pub open spec fn staging_detail(stage: Seq<char>, staging: Seq<char>, e: ConfigIoError) -> Seq<char> {
    "stage="@ + stage + "; path="@ + staging + "; kind="@ + io_kind_name(e.kind) + "; code="@ + decimal(e.code as nat)
}

/// The evidence of a failed replacement of `target` by `staging`, keeping
/// the old file at `backup`.
pub open spec fn replace_detail(e: ReplaceFileError, target: Seq<char>, staging: Seq<char>, backup: Seq<char>) -> Seq<char> {
    "stage="@ + e.stage@ + "; code="@ + decimal(e.code as nat) + "; disposition="@
        + crate::config::storage::disposition_name(e.disposition) + "; target="@ + target + "; staging="@ + staging
        + "; backup="@ + backup + "; error="@ + e.message@
}

/// The failure `failure` with a secondary failure (the answer of a close or
/// a removal made while cleaning up) appended under `tag`; a secondary
/// success leaves it as it is.
pub open spec fn amended_failure(
    failure: Option<ErrorModel>,
    tag: Seq<char>,
    answer: Result<(), ConfigIoError>,
) -> Option<ErrorModel> {
    match (failure, answer) {
        (Some(m), Err(e)) => Some(
            ErrorModel {
                detail: take_chars(m.detail, MAX_ERROR_DETAIL_CHARS as nat) + "; "@ + tag + "="@ + io_detail(e),
                ..m
            },
        ),
        _ => failure,
    }
}

/// A persistence in progress: its stage, the name attempts made at that
/// stage, the next owned-name counter, the staging and backup paths,
/// whether a failure owes the read-only notice, and the error a failure
/// reports.
pub struct PersistState {
    pub stage: PersistStage,
    pub attempt: nat,
    pub next: u64,
    pub staging: Seq<char>,
    pub backup: Seq<char>,
    pub notice: bool,
    pub failure: Option<ErrorModel>,
}

/// The state before any file operation, with the owned-name counter at `next`.
pub open spec fn persist_start(next: u64) -> PersistState {
    PersistState {
        stage: PersistStage::Staging,
        attempt: 0,
        next,
        staging: Seq::empty(),
        backup: Seq::empty(),
        notice: false,
        failure: None,
    }
}

/// The staging path tried with counter value `next`.
pub open spec fn staging_name(args: PersistArgs, next: u64) -> Seq<char> {
    joined_path(args.directory, unique_name("config.tmp"@, args.process_id, next, "toml"@))
}

/// The backup path tried with counter value `next`.
pub open spec fn backup_name(args: PersistArgs, next: u64) -> Seq<char> {
    joined_path(args.directory, unique_name(args.backup_prefix, args.process_id, next, "toml"@))
}

/// `s` moved to `stage`.
pub open spec fn moved(s: PersistState, stage: PersistStage) -> PersistState {
    PersistState { stage, attempt: 0, ..s }
}

/// `s` failed at `stage` with the error `m`.
pub open spec fn failing(s: PersistState, stage: PersistStage, m: ErrorModel) -> PersistState {
    PersistState { stage, attempt: 0, failure: Some(m), ..s }
}

/// The next state after the call `call` (with its answer) in state `s`: a
/// call other than the one the state makes leads nowhere. The staging file
/// is created under fresh names (16 tries at most), the bytes written, then
/// flushed, synced and closed; a missing target is installed, an existing
/// one replaced with its old bytes kept at a fresh owned backup. Any failure
/// closes (if open) and removes the staging file, with the evidence of a
/// failed close or removal appended to the error; a replacement that left
/// the original at the backup is first restored, and only a failed restore
/// owes the read-only notice.
pub open spec fn persist_step(args: PersistArgs, s: PersistState, call: FileCall) -> PersistState {
    let stuck = moved(s, PersistStage::Stuck);
    let write_failed = AppErrorCode::ConfigWriteFailed;
    match s.stage {
        PersistStage::Staging => match call {
            FileCall::CreateTemp(path, answer) => if path != staging_name(args, s.next) {
                stuck
            } else {
                match answer {
                    Ok(_) => PersistState {
                        stage: PersistStage::Writing,
                        attempt: 0,
                        next: advanced(s.next),
                        staging: path,
                        backup: s.backup,
                        notice: false,
                        failure: s.failure,
                    },
                    Err(e) => if e.kind is AlreadyExists && s.attempt + 1 < UNIQUE_PATH_ATTEMPTS {
                        PersistState { attempt: s.attempt + 1, next: advanced(s.next), ..s }
                    } else if e.kind is AlreadyExists {
                        failing(
                            s,
                            PersistStage::Failed,
                            fixed_error_model(write_failed, "无法取得配置临时文件名。"@, "stage=create_staging; attempts=16"@),
                        )
                    } else {
                        failing(s, PersistStage::Failed, io_error_model(write_failed, "无法创建配置临时文件。"@, e))
                    },
                }
            },
            _ => stuck,
        },
        PersistStage::Writing => match call {
            FileCall::WriteStaging(path, bytes, answer) => if path != s.staging || bytes != args.bytes {
                stuck
            } else {
                match answer {
                    Ok(_) => moved(s, PersistStage::Flushing),
                    Err(e) => failing(
                        s,
                        PersistStage::ClosingAfterFailure,
                        fixed_error_model(write_failed, "无法写入配置临时文件。"@, staging_detail("write_staging"@, s.staging, e)),
                    ),
                }
            },
            _ => stuck,
        },
        PersistStage::Flushing => match call {
            FileCall::FlushStaging(path, answer) => if path != s.staging {
                stuck
            } else {
                match answer {
                    Ok(_) => moved(s, PersistStage::Syncing),
                    Err(e) => failing(
                        s,
                        PersistStage::ClosingAfterFailure,
                        fixed_error_model(write_failed, "无法刷新配置临时文件。"@, staging_detail("flush_staging"@, s.staging, e)),
                    ),
                }
            },
            _ => stuck,
        },
        PersistStage::Syncing => match call {
            FileCall::Sync(path, answer) => if path != s.staging {
                stuck
            } else {
                match answer {
                    Ok(_) => moved(s, PersistStage::Closing),
                    Err(e) => failing(
                        s,
                        PersistStage::ClosingAfterFailure,
                        io_error_model(write_failed, "无法同步配置临时文件。"@, e),
                    ),
                }
            },
            _ => stuck,
        },
        PersistStage::Closing => match call {
            FileCall::Close(path, answer) => if path != s.staging {
                stuck
            } else {
                match answer {
                    Ok(_) => moved(s, PersistStage::CheckingTarget),
                    Err(e) => failing(
                        s,
                        PersistStage::RemovingAfterFailure,
                        io_error_model(write_failed, "无法关闭配置临时文件。"@, e),
                    ),
                }
            },
            _ => stuck,
        },
        PersistStage::ClosingAfterFailure => match call {
            FileCall::Close(path, answer) => if path != s.staging {
                stuck
            } else {
                PersistState {
                    stage: PersistStage::RemovingAfterFailure,
                    attempt: 0,
                    failure: amended_failure(s.failure, "close"@, answer),
                    ..s
                }
            },
            _ => stuck,
        },
        PersistStage::RemovingAfterFailure => match call {
            FileCall::Remove(path, answer) => if path != s.staging {
                stuck
            } else {
                PersistState {
                    stage: PersistStage::Failed,
                    attempt: 0,
                    failure: amended_failure(s.failure, "cleanup"@, answer),
                    ..s
                }
            },
            _ => stuck,
        },
        PersistStage::CheckingTarget => match call {
            FileCall::PathExists(path, answer) => if path != args.target {
                stuck
            } else {
                match answer {
                    Ok(false) => moved(s, PersistStage::Installing),
                    Ok(true) => moved(s, PersistStage::SelectingBackup),
                    Err(e) => failing(
                        s,
                        PersistStage::RemovingAfterFailure,
                        io_error_model(write_failed, "无法检查配置目标。"@, e),
                    ),
                }
            },
            _ => stuck,
        },
        PersistStage::Installing => match call {
            FileCall::Install(staging, target, answer) => if staging != s.staging || target != args.target {
                stuck
            } else {
                match answer {
                    Ok(_) => moved(s, PersistStage::Installed),
                    Err(e) => failing(
                        s,
                        PersistStage::RemovingAfterFailure,
                        io_error_model(write_failed, "无法安装新配置。"@, e),
                    ),
                }
            },
            _ => stuck,
        },
        PersistStage::SelectingBackup => match call {
            FileCall::PathExists(path, answer) => if path != backup_name(args, s.next) {
                stuck
            } else {
                match answer {
                    Ok(false) => PersistState {
                        stage: PersistStage::Replacing,
                        attempt: 0,
                        next: advanced(s.next),
                        staging: s.staging,
                        backup: path,
                        notice: false,
                        failure: s.failure,
                    },
                    Ok(true) => if s.attempt + 1 < UNIQUE_PATH_ATTEMPTS {
                        PersistState { attempt: s.attempt + 1, next: advanced(s.next), ..s }
                    } else {
                        failing(
                            s,
                            PersistStage::RemovingAfterFailure,
                            fixed_error_model(
                                AppErrorCode::ConfigBackupFailed,
                                "无法取得唯一的配置备份路径。"@,
                                "stage=select_backup_path; attempts=16"@,
                            ),
                        )
                    },
                    Err(e) => failing(
                        s,
                        PersistStage::RemovingAfterFailure,
                        io_error_model(AppErrorCode::ConfigBackupFailed, "无法检查配置备份路径。"@, e),
                    ),
                }
            },
            _ => stuck,
        },
        PersistStage::Replacing => match call {
            FileCall::Replace(target, staging, backup, answer) => if target != args.target || staging
                != s.staging || backup != s.backup {
                stuck
            } else {
                match answer {
                    Ok(_) => moved(s, PersistStage::Replaced),
                    Err(e) => {
                        let replace_failed = fixed_error_model(
                            AppErrorCode::ConfigReplaceFailed,
                            "无法替换配置文件。"@,
                            replace_detail(e, args.target, s.staging, s.backup),
                        );
                        if e.disposition == ReplacementDisposition::OriginalAtBackup {
                            failing(s, PersistStage::Restoring, replace_failed)
                        } else {
                            failing(s, PersistStage::RemovingAfterFailure, replace_failed)
                        }
                    },
                }
            },
            _ => stuck,
        },
        PersistStage::Restoring => match call {
            FileCall::Restore(backup, target, answer) => if backup != s.backup || target != args.target {
                stuck
            } else {
                match (s.failure, answer) {
                    (Some(m), Ok(_)) => failing(
                        s,
                        PersistStage::RemovingAfterFailure,
                        ErrorModel { detail: m.detail + "; secondary="@ + "restore=success"@, ..m },
                    ),
                    (Some(m), Err(r)) => PersistState {
                        stage: PersistStage::RemovingAfterFailure,
                        attempt: 0,
                        notice: true,
                        failure: Some(
                            ErrorModel {
                                message: "配置替换失败，且旧配置只能从保留的备份恢复。"@,
                                detail: m.detail + "; restore="@ + io_detail(r),
                                ..m
                            },
                        ),
                        ..s
                    },
                    _ => stuck,
                }
            },
            _ => stuck,
        },
        _ => stuck,
    }
}

/// The state after the calls `calls`, made in order from `s`.
pub open spec fn persist_run(args: PersistArgs, s: PersistState, calls: Seq<FileCall>) -> PersistState
    decreases calls.len(),
{
    if calls.len() == 0 {
        s
    } else {
        persist_run(args, persist_step(args, s, calls[0]), calls.drop_first())
    }
}

/// What a finished persistence returned: installed, replaced with the
/// backup returned, or failed with the read-only notice exactly when owed.
pub open spec fn persist_returned(s: PersistState, persisted: Result<Option<String>, PersistFailure>) -> bool {
    match persisted {
        Ok(None) => s.stage is Installed,
        Ok(Some(backup)) => s.stage is Replaced && s.backup == backup@,
        Err(failure) => s.stage is Failed && (failure.read_only_notice is Some) == s.notice && failure_reported(
            s,
            failure.error,
        ),
    }
}

/// The bounded detail of the error the failed persistence `s` reports.
pub open spec fn failure_detail(s: PersistState) -> Seq<char> {
    match s.failure {
        Some(m) => take_chars(m.detail, MAX_ERROR_DETAIL_CHARS as nat),
        None => Seq::empty(),
    }
}

/// `result` is the error the failed persistence `s` reports.
pub open spec fn failure_returned<T>(s: PersistState, result: Result<T, AppError>) -> bool {
    match result {
        Err(e) => failure_reported(s, e),
        Ok(_) => false,
    }
}

/// `error` is the error the failed persistence `s` reports.
pub open spec fn failure_reported(s: PersistState, error: AppError) -> bool {
    match s.failure {
        Some(m) => reports(error, m),
        None => false,
    }
}

/// `after` is `before` with more calls after it.
pub open spec fn extends(before: Seq<FileCall>, after: Seq<FileCall>) -> bool {
    before.len() <= after.len() && forall|i: int| 0 <= i < before.len() ==> after[i] == before[i]
}

proof fn lemma_run_push(args: PersistArgs, s: PersistState, calls: Seq<FileCall>, c: FileCall)
    ensures
        persist_run(args, s, calls.push(c)) == persist_step(args, persist_run(args, s, calls), c),
    decreases calls.len(),
{
    if calls.len() > 0 {
        assert(calls.push(c).drop_first() =~= calls.drop_first().push(c));
        lemma_run_push(args, persist_step(args, s, calls[0]), calls.drop_first(), c);
    } else {
        assert(calls.push(c).drop_first() =~= Seq::<FileCall>::empty());
        assert(calls.push(c)[0] == c);
        assert(persist_run(args, persist_step(args, s, c), Seq::<FileCall>::empty()) == persist_step(args, s, c));
    }
}

proof fn lemma_run_append(args: PersistArgs, s: PersistState, a: Seq<FileCall>, b: Seq<FileCall>)
    ensures
        persist_run(args, s, a + b) == persist_run(args, persist_run(args, s, a), b),
    decreases a.len(),
{
    if a.len() > 0 {
        assert((a + b).drop_first() =~= a.drop_first() + b);
        lemma_run_append(args, persist_step(args, s, a[0]), a.drop_first(), b);
    } else {
        assert(a + b =~= b);
    }
}

/// One more recorded call moves the run on by one step.
proof fn lemma_next_call(args: PersistArgs, s: PersistState, before: Seq<FileCall>, after: Seq<FileCall>, start: int)
    requires
        0 <= start <= before.len(),
        after.len() == before.len() + 1,
        forall|i: int| 0 <= i < before.len() ==> after[i] == before[i],
    ensures
        persist_run(args, s, after.subrange(start, after.len() as int)) == persist_step(
            args,
            persist_run(args, s, before.subrange(start, before.len() as int)),
            after.last(),
        ),
{
    assert(after.subrange(start, after.len() as int) =~= before.subrange(start, before.len() as int).push(after.last()));
    lemma_run_push(args, s, before.subrange(start, before.len() as int), after.last());
}

/// A run over calls made in two stretches is the second stretch run from
/// where the first ended.
proof fn lemma_stretches(args: PersistArgs, s: PersistState, calls: Seq<FileCall>, start: int, middle: int)
    requires
        0 <= start <= middle <= calls.len(),
    ensures
        persist_run(args, s, calls.subrange(start, calls.len() as int)) == persist_run(
            args,
            persist_run(args, s, calls.subrange(start, middle)),
            calls.subrange(middle, calls.len() as int),
        ),
{
    assert(calls.subrange(start, calls.len() as int) =~= calls.subrange(start, middle) + calls.subrange(
        middle,
        calls.len() as int,
    ));
    lemma_run_append(args, s, calls.subrange(start, middle), calls.subrange(middle, calls.len() as int));
}

/// A run over calls made in two stretches: up to `middle` (a record the
/// later one extends) and after it.
proof fn lemma_resume(args: PersistArgs, s: PersistState, middle: Seq<FileCall>, calls: Seq<FileCall>, start: int)
    requires
        0 <= start <= middle.len(),
        extends(middle, calls),
    ensures
        persist_run(args, s, calls_since(calls, start)) == persist_run(
            args,
            persist_run(args, s, calls_since(middle, start)),
            calls_since(calls, middle.len() as int),
        ),
{
    assert(calls.subrange(start, middle.len() as int) =~= calls_since(middle, start));
    lemma_stretches(args, s, calls, start, middle.len() as int);
}

// ------------------------------------------------------------ what the protocol leaves on disk

/// The files (path to bytes) after `call` on a file system where each
/// operation does what it says: a created staging file is empty, a write
/// appends, an install moves the staging file to the target, a replacement
/// does too and keeps the old target at the backup, a restore moves the
/// backup back, a removal deletes, keeping an invalid file moves it; a
/// failed operation changes nothing, except a replacement that reports the
/// original at the backup.
pub open spec fn applied(files: Map<Seq<char>, Seq<u8>>, call: FileCall) -> Map<Seq<char>, Seq<u8>> {
    match call {
        FileCall::CreateTemp(path, Ok(_)) => files.insert(path, Seq::empty()),
        FileCall::WriteStaging(path, bytes, Ok(_)) => files.insert(path, files[path] + bytes),
        FileCall::Install(staging, target, Ok(_)) => files.remove(staging).insert(target, files[staging]),
        FileCall::Replace(target, staging, backup, Ok(_)) => files.remove(staging).insert(backup, files[target]).insert(
            target,
            files[staging],
        ),
        FileCall::Replace(target, _, backup, Err(e)) => if e.disposition == ReplacementDisposition::OriginalAtBackup {
            files.remove(target).insert(backup, files[target])
        } else {
            files
        },
        FileCall::Restore(backup, target, Ok(_)) => files.remove(backup).insert(target, files[backup]),
        FileCall::Preserve(source, destination, Ok(_)) => files.remove(source).insert(destination, files[source]),
        FileCall::Remove(path, Ok(_)) => files.remove(path),
        _ => files,
    }
}

/// The files after the calls `calls`, in order.
pub open spec fn applied_all(files: Map<Seq<char>, Seq<u8>>, calls: Seq<FileCall>) -> Map<Seq<char>, Seq<u8>>
    decreases calls.len(),
{
    if calls.len() == 0 {
        files
    } else {
        applied(applied_all(files, calls.drop_last()), calls.last())
    }
}

/// What the files hold at each stage of a persistence: the empty staging
/// file while writing, the given bytes in it from then on until it is
/// moved, and the given bytes at the target once installed or replaced.
pub open spec fn persist_holds(args: PersistArgs, s: PersistState, files: Map<Seq<char>, Seq<u8>>) -> bool {
    match s.stage {
        PersistStage::Writing => files.contains_key(s.staging) && files[s.staging] == Seq::<u8>::empty(),
        PersistStage::Flushing | PersistStage::Syncing | PersistStage::Closing | PersistStage::CheckingTarget
        | PersistStage::Installing | PersistStage::SelectingBackup | PersistStage::Replacing => files.contains_key(
            s.staging,
        ) && files[s.staging] == args.bytes,
        PersistStage::Installed | PersistStage::Replaced => files.contains_key(args.target) && files[args.target]
            == args.bytes,
        _ => true,
    }
}

proof fn lemma_holds_step(args: PersistArgs, s: PersistState, files: Map<Seq<char>, Seq<u8>>, call: FileCall)
    requires
        persist_holds(args, s, files),
    ensures
        persist_holds(args, persist_step(args, s, call), applied(files, call)),
{
    if s.stage is Writing {
        if let FileCall::WriteStaging(path, bytes, Ok(_)) = call {
            assert(Seq::<u8>::empty() + bytes =~= bytes);
        }
    }
}

proof fn lemma_holds_run(args: PersistArgs, s: PersistState, files: Map<Seq<char>, Seq<u8>>, calls: Seq<FileCall>)
    requires
        persist_holds(args, s, files),
    ensures
        persist_holds(args, persist_run(args, s, calls), applied_all(files, calls)),
    decreases calls.len(),
{
    if calls.len() > 0 {
        lemma_holds_run(args, s, files, calls.drop_last());
        lemma_run_push(args, s, calls.drop_last(), calls.last());
        assert(calls.drop_last().push(calls.last()) =~= calls);
        lemma_holds_step(
            args,
            persist_run(args, s, calls.drop_last()),
            applied_all(files, calls.drop_last()),
            calls.last(),
        );
    }
}

/// On a file system where every operation does what it says, a
/// persistence that installed or replaced the target leaves the given
/// bytes there, whatever the files held before.
pub proof fn lemma_persisted_bytes_at_target(
    args: PersistArgs,
    next: u64,
    files: Map<Seq<char>, Seq<u8>>,
    calls: Seq<FileCall>,
)
    requires
        persist_run(args, persist_start(next), calls).stage is Installed || persist_run(
            args,
            persist_start(next),
            calls,
        ).stage is Replaced,
    ensures
        applied_all(files, calls).contains_key(args.target),
        applied_all(files, calls)[args.target] == args.bytes,
{
    lemma_holds_run(args, persist_start(next), files, calls);
}

/// Whether `call` looked for a path.
pub open spec fn is_lookup(call: FileCall) -> bool {
    call is PathExists
}

/// Whether some call of `calls` looked for a path.
pub open spec fn looked_up(calls: Seq<FileCall>) -> bool {
    exists|j: int| 0 <= j < calls.len() && #[trigger] is_lookup(calls[j])
}

/// `call` succeeded, and, if it looked for a path, found one only at the
/// target and only as the first lookup (`looked` tells whether one came
/// before): nothing but the target is in the way.
pub open spec fn unobstructed(args: PersistArgs, call: FileCall, looked: bool) -> bool {
    match call {
        FileCall::PathExists(path, Ok(found)) => found ==> path == args.target && !looked,
        FileCall::CreateTemp(_, answer) => answer is Ok,
        FileCall::WriteStaging(_, _, answer) => answer is Ok,
        FileCall::FlushStaging(_, answer) => answer is Ok,
        FileCall::Sync(_, answer) => answer is Ok,
        FileCall::Close(_, answer) => answer is Ok,
        FileCall::Install(_, _, answer) => answer is Ok,
        FileCall::Replace(_, _, _, answer) => answer is Ok,
        _ => false,
    }
}

/// Every call of `calls` is [`unobstructed`], given the calls before it.
pub open spec fn unobstructed_calls(args: PersistArgs, calls: Seq<FileCall>) -> bool
    decreases calls.len(),
{
    if calls.len() == 0 {
        true
    } else {
        unobstructed_calls(args, calls.drop_last()) && unobstructed(args, calls.last(), looked_up(calls.drop_last()))
    }
}

/// A persistence that has not failed (so far).
pub open spec fn still_going(s: PersistState) -> bool {
    !(s.stage is ClosingAfterFailure || s.stage is RemovingAfterFailure || s.stage is Restoring || s.stage is Failed)
}

proof fn lemma_unobstructed_step(args: PersistArgs, s: PersistState, call: FileCall, looked: bool)
    requires
        still_going(s),
        unobstructed(args, call, looked),
        s.stage is SelectingBackup ==> looked,
    ensures
        still_going(persist_step(args, s, call)),
        persist_step(args, s, call).stage is SelectingBackup ==> s.stage is SelectingBackup || is_lookup(call),
{
}

proof fn lemma_unobstructed_run(args: PersistArgs, s: PersistState, calls: Seq<FileCall>)
    requires
        still_going(s),
        !(s.stage is SelectingBackup),
        unobstructed_calls(args, calls),
    ensures
        still_going(persist_run(args, s, calls)),
        persist_run(args, s, calls).stage is SelectingBackup ==> looked_up(calls),
    decreases calls.len(),
{
    if calls.len() > 0 {
        let prefix = calls.drop_last();
        lemma_unobstructed_run(args, s, prefix);
        lemma_run_push(args, s, prefix, calls.last());
        assert(prefix.push(calls.last()) =~= calls);
        let before = persist_run(args, s, prefix);
        lemma_unobstructed_step(args, before, calls.last(), looked_up(prefix));
        if persist_run(args, s, calls).stage is SelectingBackup {
            if before.stage is SelectingBackup {
                let j = choose|j: int| 0 <= j < prefix.len() && #[trigger] is_lookup(prefix[j]);
                assert(calls[j] == prefix[j]);
            } else {
                assert(is_lookup(calls[calls.len() - 1]));
            }
        }
    }
}

/// Success is owed when every file operation succeeds: a persistence whose
/// calls all succeeded, with nothing but the target found in its way, did
/// not fail.
pub proof fn lemma_unobstructed_persist_does_not_fail(args: PersistArgs, next: u64, calls: Seq<FileCall>)
    requires
        unobstructed_calls(args, calls),
    ensures
        !(persist_run(args, persist_start(next), calls).stage is Failed),
{
    lemma_unobstructed_run(args, persist_start(next), calls);
}

/// What a persistence keeps of the target at each stage, `before` being
/// the files it started from: the target untouched until a replacement, its
/// old bytes at the backup while a restore is owed, and untouched again
/// after a failure that owes no read-only notice.
pub open spec fn target_kept(
    args: PersistArgs,
    s: PersistState,
    before: Map<Seq<char>, Seq<u8>>,
    files: Map<Seq<char>, Seq<u8>>,
) -> bool {
    let untouched = files.contains_key(args.target) && files[args.target] == before[args.target];
    match s.stage {
        PersistStage::Staging => untouched,
        PersistStage::Restoring => s.staging != args.target && s.backup != args.target && files.contains_key(s.backup)
            && files[s.backup] == before[args.target],
        PersistStage::Replacing => s.staging != args.target && untouched,
        PersistStage::RemovingAfterFailure => s.staging != args.target && (s.notice || untouched),
        PersistStage::Failed => s.notice || untouched,
        PersistStage::Installed | PersistStage::Replaced | PersistStage::Stuck => true,
        _ => s.staging != args.target && untouched,
    }
}

/// `call` does not put an owned file (a staging file, a backup) at the
/// target.
pub open spec fn owned_apart(args: PersistArgs, call: FileCall) -> bool {
    match call {
        FileCall::CreateTemp(path, _) => path != args.target,
        FileCall::Replace(_, _, backup, _) => backup != args.target,
        _ => true,
    }
}

proof fn lemma_kept_step(
    args: PersistArgs,
    s: PersistState,
    before: Map<Seq<char>, Seq<u8>>,
    files: Map<Seq<char>, Seq<u8>>,
    call: FileCall,
)
    requires
        target_kept(args, s, before, files),
        owned_apart(args, call),
    ensures
        target_kept(args, persist_step(args, s, call), before, applied(files, call)),
{
}

proof fn lemma_kept_run(
    args: PersistArgs,
    s: PersistState,
    before: Map<Seq<char>, Seq<u8>>,
    files: Map<Seq<char>, Seq<u8>>,
    calls: Seq<FileCall>,
)
    requires
        target_kept(args, s, before, files),
        forall|k: int| 0 <= k < calls.len() ==> owned_apart(args, #[trigger] calls[k]),
    ensures
        target_kept(args, persist_run(args, s, calls), before, applied_all(files, calls)),
    decreases calls.len(),
{
    if calls.len() > 0 {
        let prefix = calls.drop_last();
        assert forall|k: int| 0 <= k < prefix.len() implies owned_apart(args, #[trigger] prefix[k]) by {
            assert(prefix[k] == calls[k]);
        }
        lemma_kept_run(args, s, before, files, prefix);
        lemma_run_push(args, s, prefix, calls.last());
        assert(prefix.push(calls.last()) =~= calls);
        assert(owned_apart(args, calls[calls.len() - 1]));
        lemma_kept_step(args, persist_run(args, s, prefix), before, applied_all(files, prefix), calls.last());
    }
}

/// On a file system where every operation does what it says, a
/// persistence that failed without owing the read-only notice leaves the
/// target's old bytes in place, provided it created no staging file and
/// kept no backup at the target itself.
pub proof fn lemma_failed_persist_keeps_target(
    args: PersistArgs,
    next: u64,
    files: Map<Seq<char>, Seq<u8>>,
    calls: Seq<FileCall>,
)
    requires
        files.contains_key(args.target),
        forall|k: int| 0 <= k < calls.len() ==> owned_apart(args, #[trigger] calls[k]),
        persist_run(args, persist_start(next), calls).stage is Failed,
        !persist_run(args, persist_start(next), calls).notice,
    ensures
        applied_all(files, calls).contains_key(args.target),
        applied_all(files, calls)[args.target] == files[args.target],
{
    lemma_kept_run(args, persist_start(next), files, files, calls);
}

/// Takes the next unique owned path in `directory`.
pub fn unique_path(names: &mut PathSequence, directory: &str, prefix: &str, extension: &str) -> (path: String)
    ensures
        path@ == joined_path(directory@, unique_name(prefix@, old(names).process_id, old(names).next, extension@)),
        final(names).process_id == old(names).process_id,
        final(names).next == advanced(old(names).next),
{
    let sequence = names.next;
    names.next = names.next.wrapping_add(1);
    let mut name = String::from_str(prefix);
    name.append("-");
    name.append(decimal_string(names.process_id as u64).as_str());
    name.append("-");
    name.append(decimal_string(sequence).as_str());
    name.append(".");
    name.append(extension);
    join_path(directory, name.as_str())
}

/// A failed persistence, with the notice to show if the configuration must
/// become read-only.
pub struct PersistFailure {
    pub error: AppError,
    pub read_only_notice: Option<ConfigNotice>,
}

/// Message of the notice for a replacement whose recovery failed.
pub open spec fn recovery_failed_message() -> Seq<char> {
    "配置替换恢复失败，已保留最后有效备份并进入只读模式。"@
}

/// What holds of every persistence failure: a recoverable configuration
/// write, backup or replace error; a read-only notice only for a failed
/// recovery after a replacement, carrying the error's evidence.
pub open spec fn persist_failure_ok(failure: PersistFailure) -> bool {
    &&& failure.error.module == RequirementModule::M7
    &&& failure.error.recoverable
    &&& (failure.error.code == AppErrorCode::ConfigWriteFailed || failure.error.code == AppErrorCode::ConfigBackupFailed
        || failure.error.code == AppErrorCode::ConfigReplaceFailed)
    &&& match failure.read_only_notice {
        Some(n) => n@ == notice_model(ConfigNoticeCode::ReplacementRecoveryFailed, recovery_failed_message(), opt_view(failure.error.detail))
            && failure.error.code == AppErrorCode::ConfigReplaceFailed,
        None => true,
    }
}

/// The detail an error keeps, or `stage=unknown`.
pub open spec fn base_detail(error: AppError) -> Seq<char> {
    match error.detail {
        Some(d) => d@,
        None => "stage=unknown"@,
    }
}

/// `error` with `; {tag}={extra}` appended to its detail (kept bounded).
pub open spec fn amended(error: AppError, result: AppError, tag: Seq<char>, extra: Seq<char>) -> bool {
    &&& result.code == error.code
    &&& result.kind == error.kind
    &&& result.module == error.module
    &&& result.message@ == error.message@
    &&& result.recoverable == error.recoverable
    &&& opt_view(result.detail) == Some(take_chars(base_detail(error) + "; "@ + tag + "="@ + extra, MAX_ERROR_DETAIL_CHARS as nat))
}

/// `error` unchanged, or with a secondary failure appended under `tag`.
pub open spec fn kept_or_amended(error: AppError, result: AppError, tag: Seq<char>) -> bool {
    ||| (result.code == error.code && result.kind == error.kind && result.module == error.module
        && result.message@ == error.message@ && result.recoverable == error.recoverable
        && opt_view(result.detail) == opt_view(error.detail))
    ||| exists|extra: Seq<char>| amended(error, result, tag, extra)
}

fn amend(primary: AppError, tag: &str, extra: String) -> (result: AppError)
    ensures
        amended(primary, result, tag@, extra@),
{
    let mut primary = primary;
    let mut detail = match &primary.detail {
        Some(d) => d.clone(),
        None => String::from_str("stage=unknown"),
    };
    detail.append("; ");
    detail.append(tag);
    detail.append("=");
    detail.append(extra.as_str());
    primary.detail = Some(truncate_chars(detail.as_str(), MAX_ERROR_DETAIL_CHARS));
    primary
}

/// Removes the owned staging file; a removal failure is appended to the
/// primary error as `cleanup=` evidence.
pub fn cleanup_failure<F: ConfigFileOps>(
    files: &mut Recorded<F>,
    staging: &str,
    primary: AppError,
    Ghost(args): Ghost<PersistArgs>,
    Ghost(state): Ghost<PersistState>,
) -> (failure: PersistFailure)
    requires
        state.stage is RemovingAfterFailure,
        state.staging == staging@,
        failure_reported(state, primary),
    ensures
        failure.read_only_notice is None,
        kept_or_amended(primary, failure.error, "cleanup"@),
        extends(old(files).calls(), final(files).calls()),
        ({
            let end = persist_run(args, state, calls_since(final(files).calls(), old(files).calls().len() as int));
            end.stage is Failed && end.notice == state.notice && failure_reported(end, failure.error)
        }),
{
    let ghost start = files.calls().len() as int;
    let ghost before = files.calls();
    let removed = files.remove_owned(staging);
    proof {
        lemma_next_call(args, state, before, files.calls(), start);
        assert(before.subrange(start, start) =~= Seq::<FileCall>::empty());
    }
    match removed {
        Ok(()) => PersistFailure { error: primary, read_only_notice: None },
        Err(cleanup) => {
            let error = amend(primary, "cleanup", cleanup.detail());
            PersistFailure { error, read_only_notice: None }
        },
    }
}

/// Closes the staging file, then removes it; each failure is appended.
pub fn close_then_cleanup<F: ConfigFileOps>(
    files: &mut Recorded<F>,
    staging: &str,
    pending: F::Pending,
    primary: AppError,
    Ghost(args): Ghost<PersistArgs>,
    Ghost(state): Ghost<PersistState>,
) -> (failure: PersistFailure)
    requires
        state.stage is ClosingAfterFailure,
        state.staging == staging@,
        failure_reported(state, primary),
    ensures
        failure.read_only_notice is None,
        failure.error.code == primary.code,
        failure.error.kind == primary.kind,
        failure.error.module == primary.module,
        failure.error.recoverable == primary.recoverable,
        extends(old(files).calls(), final(files).calls()),
        ({
            let end = persist_run(args, state, calls_since(final(files).calls(), old(files).calls().len() as int));
            end.stage is Failed && end.notice == state.notice && failure_reported(end, failure.error)
        }),
{
    let ghost start = files.calls().len() as int;
    let ghost before = files.calls();
    let closed = files.close(staging, pending);
    let ghost middle = files.calls();
    proof {
        lemma_next_call(args, state, before, files.calls(), start);
        assert(before.subrange(start, start) =~= Seq::<FileCall>::empty());
    }
    let ghost removing = persist_run(args, state, calls_since(files.calls(), start));
    let primary = match closed {
        Ok(()) => primary,
        Err(close) => amend(primary, "close", close.detail()),
    };
    let failure = cleanup_failure(files, staging, primary, Ghost(args), Ghost(removing));
    proof {
        lemma_resume(args, state, middle, files.calls(), start);
    }
    failure
}

/// The evidence of a failed native replacement.
pub fn native_replace_detail(error: &ReplaceFileError, target: &str, staging: &str, backup: &str) -> (detail: String)
    ensures
        detail@ == replace_detail(*error, target@, staging@, backup@),
{
    let mut detail = String::from_str("stage=");
    detail.append(error.stage.as_str());
    detail.append("; code=");
    detail.append(decimal_string(error.code as u64).as_str());
    detail.append("; disposition=");
    detail.append(disposition_text(error.disposition));
    detail.append("; target=");
    detail.append(target);
    detail.append("; staging=");
    detail.append(staging);
    detail.append("; backup=");
    detail.append(backup);
    detail.append("; error=");
    detail.append(error.message.as_str());
    detail
}

/// A failed replacement, with `secondary` evidence, after removing staging.
pub fn cleanup_replace_failure<F: ConfigFileOps>(
    files: &mut Recorded<F>,
    target: &str,
    staging: &str,
    backup: &str,
    error: &ReplaceFileError,
    secondary: Option<&str>,
    Ghost(args): Ghost<PersistArgs>,
    Ghost(state): Ghost<PersistState>,
) -> (failure: PersistFailure)
    requires
        state.stage is RemovingAfterFailure,
        state.staging == staging@,
        state.failure == Some(
            fixed_error_model(
                AppErrorCode::ConfigReplaceFailed,
                "无法替换配置文件。"@,
                match secondary {
                    Some(text) => replace_detail(*error, target@, staging@, backup@) + "; secondary="@ + text@,
                    None => replace_detail(*error, target@, staging@, backup@),
                },
            ),
        ),
    ensures
        failure.read_only_notice is None,
        failure.error.code == AppErrorCode::ConfigReplaceFailed,
        failure.error.kind == AppErrorKind::Io,
        failure.error.module == RequirementModule::M7,
        failure.error.recoverable,
        extends(old(files).calls(), final(files).calls()),
        ({
            let end = persist_run(args, state, calls_since(final(files).calls(), old(files).calls().len() as int));
            end.stage is Failed && end.notice == state.notice && failure_reported(end, failure.error)
        }),
{
    let mut detail = native_replace_detail(error, target, staging, backup);
    match secondary {
        Some(secondary) => {
            detail.append("; secondary=");
            detail.append(secondary);
        },
        None => {},
    }
    cleanup_failure(
        files,
        staging,
        AppError::config(AppErrorCode::ConfigReplaceFailed, AppErrorKind::Io, "无法替换配置文件。", Some(detail), true),
        Ghost(args),
        Ghost(state),
    )
}

/// Creates a fresh staging file in `directory`, skipping names that exist.
pub fn create_staging<F: ConfigFileOps>(
    files: &mut Recorded<F>,
    names: &mut PathSequence,
    directory: &str,
    Ghost(args): Ghost<PersistArgs>,
) -> (staged: Result<(String, F::Pending), AppError>)
    requires
        args.directory == directory@,
        args.process_id == old(names).process_id,
    ensures
        final(names).process_id == old(names).process_id,
        drew_names(*old(names), *final(names), 1, UNIQUE_PATH_ATTEMPTS as nat),
        staged matches Err(e) ==> e.code == AppErrorCode::ConfigWriteFailed && e.module == RequirementModule::M7 && e.recoverable,
        staged matches Ok((path, _)) ==> owned_unique_path(path@, directory@, "config.tmp"@, old(names).process_id, "toml"@),
        extends(old(files).calls(), final(files).calls()),
        ({
            let end = persist_run(
                args,
                persist_start(old(names).next),
                calls_since(final(files).calls(), old(files).calls().len() as int),
            );
            match staged {
                Ok((path, _)) => end == PersistState {
                    stage: PersistStage::Writing,
                    attempt: 0,
                    next: final(names).next,
                    staging: path@,
                    backup: Seq::empty(),
                    notice: false,
                    failure: None,
                },
                Err(e) => end.stage is Failed && !end.notice && failure_reported(end, e),
            }
        }),
{
    let ghost start = files.calls().len() as int;
    let ghost s0 = persist_start(names.next);
    assert(files.calls().subrange(start, start) =~= Seq::<FileCall>::empty());
    let mut attempt: usize = 0;
    while attempt < UNIQUE_PATH_ATTEMPTS
        invariant
            names.process_id == old(names).process_id,
            attempt < UNIQUE_PATH_ATTEMPTS,
            names.next == advanced_times(old(names).next, attempt as nat),
            args.directory == directory@,
            args.process_id == old(names).process_id,
            start == old(files).calls().len(),
            s0 == persist_start(old(names).next),
            extends(old(files).calls(), files.calls()),
            persist_run(args, s0, calls_since(files.calls(), start)) == (PersistState {
                stage: PersistStage::Staging,
                attempt: attempt as nat,
                next: names.next,
                staging: Seq::empty(),
                backup: Seq::empty(),
                notice: false,
                failure: None,
            }),
        decreases UNIQUE_PATH_ATTEMPTS - attempt,
    {
        let ghost sequence = names.next;
        let ghost before = files.calls();
        let path = unique_path(names, directory, "config.tmp", "toml");
        assert(names.next == advanced_times(old(names).next, (attempt + 1) as nat));
        assert(path@ == joined_path(directory@, unique_name("config.tmp"@, old(names).process_id, sequence, "toml"@)));
        let created = files.create_temp_exclusive(path.as_str());
        proof {
            lemma_next_call(args, s0, before, files.calls(), start);
        }
        match created {
            Ok(pending) => return Ok((path, pending)),
            Err(error) => {
                if !error.kind.is_already_exists() {
                    return Err(io_app_error(AppErrorCode::ConfigWriteFailed, "无法创建配置临时文件。", error, true));
                }
                if attempt + 1 == UNIQUE_PATH_ATTEMPTS {
                    return Err(AppError::config(
                        AppErrorCode::ConfigWriteFailed,
                        AppErrorKind::Io,
                        "无法取得配置临时文件名。",
                        Some(String::from_str("stage=create_staging; attempts=16")),
                        true,
                    ));
                }
            },
        }
        attempt += 1;
    }
    Err(AppError::config(
        AppErrorCode::ConfigWriteFailed,
        AppErrorKind::Io,
        "无法取得配置临时文件名。",
        Some(String::from_str("stage=create_staging; attempts=16")),
        true,
    ))
}

/// Picks an owned path in `directory` that does not exist yet.
pub fn select_unused_owned_path<F: ConfigFileOps>(
    files: &mut Recorded<F>,
    names: &mut PathSequence,
    directory: &str,
    prefix: &str,
    extension: &str,
    Ghost(args): Ghost<PersistArgs>,
    Ghost(state): Ghost<PersistState>,
) -> (selected: Result<String, AppError>)
    requires
        args.directory == directory@,
        args.process_id == old(names).process_id,
        args.backup_prefix == prefix@,
        extension@ == "toml"@,
        state.stage is SelectingBackup,
        state.attempt == 0,
        state.next == old(names).next,
    ensures
        final(names).process_id == old(names).process_id,
        drew_names(*old(names), *final(names), 1, UNIQUE_PATH_ATTEMPTS as nat),
        selected matches Err(e) ==> e.code == AppErrorCode::ConfigBackupFailed && e.module == RequirementModule::M7 && e.recoverable,
        selected matches Ok(path) ==> owned_unique_path(path@, directory@, prefix@, old(names).process_id, extension@),
        extends(old(files).calls(), final(files).calls()),
        ({
            let end = persist_run(args, state, calls_since(final(files).calls(), old(files).calls().len() as int));
            match selected {
                Ok(path) => end == PersistState {
                    stage: PersistStage::Replacing,
                    attempt: 0,
                    next: final(names).next,
                    staging: state.staging,
                    backup: path@,
                    notice: false,
                    failure: state.failure,
                },
                Err(e) => end.stage is RemovingAfterFailure && end.staging == state.staging && end.notice
                    == state.notice && failure_reported(end, e),
            }
        }),
{
    let ghost start = files.calls().len() as int;
    assert(files.calls().subrange(start, start) =~= Seq::<FileCall>::empty());
    let mut attempt: usize = 0;
    while attempt < UNIQUE_PATH_ATTEMPTS
        invariant
            names.process_id == old(names).process_id,
            attempt < UNIQUE_PATH_ATTEMPTS,
            names.next == advanced_times(old(names).next, attempt as nat),
            args.directory == directory@,
            args.process_id == old(names).process_id,
            args.backup_prefix == prefix@,
            extension@ == "toml"@,
            start == old(files).calls().len(),
            extends(old(files).calls(), files.calls()),
            persist_run(args, state, calls_since(files.calls(), start)) == (PersistState {
                stage: PersistStage::SelectingBackup,
                attempt: attempt as nat,
                next: names.next,
                staging: state.staging,
                backup: state.backup,
                notice: state.notice,
                failure: state.failure,
            }),
        decreases UNIQUE_PATH_ATTEMPTS - attempt,
    {
        let ghost sequence = names.next;
        let ghost before = files.calls();
        let path = unique_path(names, directory, prefix, extension);
        assert(names.next == advanced_times(old(names).next, (attempt + 1) as nat));
        assert(path@ == joined_path(directory@, unique_name(prefix@, old(names).process_id, sequence, extension@)));
        let exists = files.path_exists(path.as_str());
        proof {
            lemma_next_call(args, state, before, files.calls(), start);
        }
        match exists {
            Ok(false) => return Ok(path),
            Ok(true) => {
                if attempt + 1 == UNIQUE_PATH_ATTEMPTS {
                    return Err(AppError::config(
                        AppErrorCode::ConfigBackupFailed,
                        AppErrorKind::Io,
                        "无法取得唯一的配置备份路径。",
                        Some(String::from_str("stage=select_backup_path; attempts=16")),
                        true,
                    ));
                }
            },
            Err(error) => {
                return Err(io_app_error(AppErrorCode::ConfigBackupFailed, "无法检查配置备份路径。", error, true));
            },
        }
        attempt += 1;
    }
    Err(AppError::config(
        AppErrorCode::ConfigBackupFailed,
        AppErrorKind::Io,
        "无法取得唯一的配置备份路径。",
        Some(String::from_str("stage=select_backup_path; attempts=16")),
        true,
    ))
}

/// The evidence of a staging write failure.
fn staging_failure(stage: &str, staging: &str, error: &ConfigIoError) -> (detail: String)
    ensures
        detail@ == staging_detail(stage@, staging@, *error),
{
    let mut detail = String::from_str("stage=");
    detail.append(stage);
    detail.append("; path=");
    detail.append(staging);
    detail.append("; kind=");
    detail.append(error.kind.name().as_str());
    detail.append("; code=");
    detail.append(decimal_string(error.code as u64).as_str());
    detail
}

/// Writes `bytes` to the staging file, flushes, syncs and closes it. A
/// failure closes the file (if it is still open) and removes it.
#[verifier::spinoff_prover]
#[verifier::rlimit(60)]
fn write_and_close<F: ConfigFileOps>(
    files: &mut Recorded<F>,
    staging: &str,
    pending: F::Pending,
    bytes: &[u8],
    Ghost(args): Ghost<PersistArgs>,
    Ghost(state): Ghost<PersistState>,
) -> (written: Result<(), PersistFailure>)
    requires
        state.stage is Writing,
        state.staging == staging@,
        !state.notice,
        args.bytes == bytes@,
    ensures
        extends(old(files).calls(), final(files).calls()),
        written matches Err(f) ==> f.read_only_notice is None && f.error.code == AppErrorCode::ConfigWriteFailed
            && f.error.module == RequirementModule::M7 && f.error.recoverable,
        ({
            let end = persist_run(args, state, calls_since(final(files).calls(), old(files).calls().len() as int));
            match written {
                Ok(()) => end == moved(state, PersistStage::CheckingTarget),
                Err(f) => end.stage is Failed && !end.notice && failure_reported(end, f.error),
            }
        }),
{
    let mut pending = pending;
    let ghost start = files.calls().len() as int;
    assert(files.calls().subrange(start, start) =~= Seq::<FileCall>::empty());
    let ghost before = files.calls();
    let written = files.write_staging(staging, &mut pending, bytes);
    proof { lemma_next_call(args, state, before, files.calls(), start); }
    match written {
        Ok(()) => {},
        Err(error) => {
            let primary = AppError::config(
                AppErrorCode::ConfigWriteFailed,
                AppErrorKind::Io,
                "无法写入配置临时文件。",
                Some(staging_failure("write_staging", staging, &error)),
                true,
            );
            let ghost middle = files.calls();
            let ghost now = persist_run(args, state, calls_since(middle, start));
            let failure = close_then_cleanup(files, staging, pending, primary, Ghost(args), Ghost(now));
            proof { lemma_resume(args, state, middle, files.calls(), start); }
            return Err(failure);
        },
    }
    let ghost before = files.calls();
    let flushed = files.flush_staging(staging, &mut pending);
    proof { lemma_next_call(args, state, before, files.calls(), start); }
    match flushed {
        Ok(()) => {},
        Err(error) => {
            let primary = AppError::config(
                AppErrorCode::ConfigWriteFailed,
                AppErrorKind::Io,
                "无法刷新配置临时文件。",
                Some(staging_failure("flush_staging", staging, &error)),
                true,
            );
            let ghost middle = files.calls();
            let ghost now = persist_run(args, state, calls_since(middle, start));
            let failure = close_then_cleanup(files, staging, pending, primary, Ghost(args), Ghost(now));
            proof { lemma_resume(args, state, middle, files.calls(), start); }
            return Err(failure);
        },
    }
    let ghost before = files.calls();
    let synced = files.sync(staging, &mut pending);
    proof { lemma_next_call(args, state, before, files.calls(), start); }
    match synced {
        Ok(()) => {},
        Err(error) => {
            let primary = io_app_error(AppErrorCode::ConfigWriteFailed, "无法同步配置临时文件。", error, true);
            let ghost middle = files.calls();
            let ghost now = persist_run(args, state, calls_since(middle, start));
            let failure = close_then_cleanup(files, staging, pending, primary, Ghost(args), Ghost(now));
            proof { lemma_resume(args, state, middle, files.calls(), start); }
            return Err(failure);
        },
    }
    let ghost before = files.calls();
    let closed = files.close(staging, pending);
    proof { lemma_next_call(args, state, before, files.calls(), start); }
    match closed {
        Ok(()) => Ok(()),
        Err(error) => {
            let primary = io_app_error(AppErrorCode::ConfigWriteFailed, "无法关闭配置临时文件。", error, true);
            let ghost middle = files.calls();
            let ghost now = persist_run(args, state, calls_since(middle, start));
            let failure = cleanup_failure(files, staging, primary, Ghost(args), Ghost(now));
            proof { lemma_resume(args, state, middle, files.calls(), start); }
            Err(failure)
        },
    }
}

/// Replaces `target` by the staging file, keeping the old file at `backup`.
/// A replacement that left the original at the backup is undone by
/// restoring the backup; if that fails too, the failure carries the
/// read-only notice. Any failure removes the staging file.
fn replace_keeping_backup<F: ConfigFileOps>(
    files: &mut Recorded<F>,
    target: &str,
    staging: &str,
    backup: String,
    Ghost(args): Ghost<PersistArgs>,
    Ghost(state): Ghost<PersistState>,
) -> (persisted: Result<Option<String>, PersistFailure>)
    requires
        state.stage is Replacing,
        state.staging == staging@,
        state.backup == backup@,
        args.target == target@,
        !state.notice,
    ensures
        extends(old(files).calls(), final(files).calls()),
        persisted matches Err(f) ==> persist_failure_ok(f),
        persisted matches Ok(b) ==> b == Some(backup),
        persist_returned(persist_run(args, state, calls_since(final(files).calls(), old(files).calls().len() as int)), persisted),
{
    let ghost start = files.calls().len() as int;
    assert(files.calls().subrange(start, start) =~= Seq::<FileCall>::empty());
    let ghost before = files.calls();
    let replaced = files.replace_with_backup(target, staging, backup.as_str());
    proof { lemma_next_call(args, state, before, files.calls(), start); }
    match replaced {
        Ok(()) => Ok(Some(backup)),
        Err(error) => {
            if error.disposition == ReplacementDisposition::OriginalAtBackup {
                let ghost before = files.calls();
                let restored = files.restore_backup_noreplace(backup.as_str(), target);
                proof { lemma_next_call(args, state, before, files.calls(), start); }
                let ghost middle = files.calls();
                let ghost now = persist_run(args, state, calls_since(middle, start));
                match restored {
                    Ok(()) => {
                        let failure = cleanup_replace_failure(
                            files,
                            target,
                            staging,
                            backup.as_str(),
                            &error,
                            Some("restore=success"),
                            Ghost(args),
                            Ghost(now),
                        );
                        proof { lemma_resume(args, state, middle, files.calls(), start); }
                        Err(failure)
                    },
                    Err(restore) => {
                        let mut detail = native_replace_detail(&error, target, staging, backup.as_str());
                        detail.append("; restore=");
                        detail.append(restore.detail().as_str());
                        let failure = cleanup_failure(
                            files,
                            staging,
                            AppError::config(
                                AppErrorCode::ConfigReplaceFailed,
                                AppErrorKind::Io,
                                "配置替换失败，且旧配置只能从保留的备份恢复。",
                                Some(detail),
                                true,
                            ),
                            Ghost(args),
                            Ghost(now),
                        );
                        proof { lemma_resume(args, state, middle, files.calls(), start); }
                        let notice_detail = crate::config::snapshot::clone_optional(&failure.error.detail);
                        let notice = ConfigNotice::new(
                            ConfigNoticeCode::ReplacementRecoveryFailed,
                            "配置替换恢复失败，已保留最后有效备份并进入只读模式。",
                            notice_detail,
                        );
                        Err(PersistFailure { error: failure.error, read_only_notice: Some(notice) })
                    },
                }
            } else {
                let ghost middle = files.calls();
                let ghost now = persist_run(args, state, calls_since(middle, start));
                let failure = cleanup_replace_failure(
                    files,
                    target,
                    staging,
                    backup.as_str(),
                    &error,
                    None,
                    Ghost(args),
                    Ghost(now),
                );
                proof { lemma_resume(args, state, middle, files.calls(), start); }
                Err(failure)
            }
        },
    }
}

/// Writes `bytes` to `target` through an owned staging file: a new target is
/// installed without replacing anything; an existing one is replaced with its
/// old bytes kept at an owned backup, whose path is returned. If a
/// replacement left the original at the backup, the backup is restored; if
/// that fails too, the failure carries a read-only notice.
#[verifier::spinoff_prover]
#[verifier::rlimit(60)]
pub fn persist_bytes<F: ConfigFileOps>(
    files: &mut Recorded<F>,
    names: &mut PathSequence,
    directory: &str,
    target: &str,
    bytes: &[u8],
    backup_prefix: &str,
) -> (persisted: Result<Option<String>, PersistFailure>)
    ensures
        final(names).process_id == old(names).process_id,
        drew_names(*old(names), *final(names), 1, 2 * UNIQUE_PATH_ATTEMPTS as nat),
        persisted matches Err(f) ==> persist_failure_ok(f),
        persisted matches Ok(Some(backup)) ==> owned_unique_path(
            backup@,
            directory@,
            backup_prefix@,
            old(names).process_id,
            "toml"@,
        ),
        extends(old(files).calls(), final(files).calls()),
        persist_returned(
            persist_run(
                persist_args(directory@, target@, bytes@, backup_prefix@, old(names).process_id),
                persist_start(old(names).next),
                calls_since(final(files).calls(), old(files).calls().len() as int),
            ),
            persisted,
        ),
{
    let ghost args = persist_args(directory@, target@, bytes@, backup_prefix@, names.process_id);
    let ghost s0 = persist_start(names.next);
    let ghost start = files.calls().len() as int;
    let (staging, pending) = match create_staging(files, names, directory, Ghost(args)) {
        Ok(staged) => staged,
        Err(error) => return Err(PersistFailure { error, read_only_notice: None }),
    };
    let ghost writing = persist_run(args, s0, calls_since(files.calls(), start));
    let ghost middle = files.calls();
    let written = write_and_close(files, staging.as_str(), pending, bytes, Ghost(args), Ghost(writing));
    proof { lemma_resume(args, s0, middle, files.calls(), start); }
    match written {
        Ok(()) => {},
        Err(failure) => return Err(failure),
    }
    let ghost before = files.calls();
    let checked = files.path_exists(target);
    proof { lemma_next_call(args, s0, before, files.calls(), start); }
    let target_exists = match checked {
        Ok(exists) => exists,
        Err(error) => {
            let primary = io_app_error(AppErrorCode::ConfigWriteFailed, "无法检查配置目标。", error, true);
            let ghost middle = files.calls();
            let ghost now = persist_run(args, s0, calls_since(middle, start));
            let failure = cleanup_failure(files, staging.as_str(), primary, Ghost(args), Ghost(now));
            proof { lemma_resume(args, s0, middle, files.calls(), start); }
            return Err(failure);
        },
    };
    if !target_exists {
        let ghost before = files.calls();
        let installed = files.install_new_noreplace(staging.as_str(), target);
        proof { lemma_next_call(args, s0, before, files.calls(), start); }
        return match installed {
            Ok(()) => Ok(None),
            Err(error) => {
                let primary = io_app_error(AppErrorCode::ConfigWriteFailed, "无法安装新配置。", error, true);
                let ghost middle = files.calls();
                let ghost now = persist_run(args, s0, calls_since(middle, start));
                let failure = cleanup_failure(files, staging.as_str(), primary, Ghost(args), Ghost(now));
                proof { lemma_resume(args, s0, middle, files.calls(), start); }
                Err(failure)
            },
        };
    }
    let ghost selecting = moved(writing, PersistStage::SelectingBackup);
    let ghost staged_names = *names;
    let ghost first = choose|count: nat|
        1 <= count <= UNIQUE_PATH_ATTEMPTS as nat && staged_names.next == #[trigger] advanced_times(old(names).next, count);
    let ghost middle = files.calls();
    let selected = select_unused_owned_path(files, names, directory, backup_prefix, "toml", Ghost(args), Ghost(selecting));
    proof {
        let second = choose|count: nat|
            1 <= count <= UNIQUE_PATH_ATTEMPTS as nat && names.next == #[trigger] advanced_times(staged_names.next, count);
        lemma_advanced_times_add(old(names).next, first, second);
        assert(names.next == advanced_times(old(names).next, first + second));
        lemma_resume(args, s0, middle, files.calls(), start);
    }
    let ghost after_select = persist_run(args, s0, calls_since(files.calls(), start));
    let backup = match selected {
        Ok(backup) => backup,
        Err(error) => {
            let ghost middle = files.calls();
            let failure = cleanup_failure(files, staging.as_str(), error, Ghost(args), Ghost(after_select));
            proof { lemma_resume(args, s0, middle, files.calls(), start); }
            return Err(failure);
        },
    };
    let ghost middle = files.calls();
    let persisted = replace_keeping_backup(files, target, staging.as_str(), backup, Ghost(args), Ghost(after_select));
    proof { lemma_resume(args, s0, middle, files.calls(), start); }
    persisted
}

} // verus!
