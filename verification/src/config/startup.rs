//! Startup loading: a configuration failure never aborts startup; it falls
//! back to recovery, preservation of the bad file, or read-only defaults.
use vstd::prelude::*;
use crate::config::codec::{CodecFailure, ConfigCodecError, codec_message, decode, decode_spec, decoded, encode, encode_spec, encoded};
use crate::config::migration::MigrationError;
use crate::config::model::{AppConfig, ConfigModel, config_problem, default_config, lemma_default_is_valid, valid_config};
use crate::config::persist::{
    PathSequence, PersistStage, UNIQUE_PATH_ATTEMPTS, advanced_times, extends, owned_unique_path, persist_args, persist_bytes,
    failure_detail, persist_run, persist_start, unique_name, unique_path,
};
use crate::config::snapshot::{
    ConfigNotice, ConfigNoticeCode, ConfigPersistence, ConfigSnapshot, SnapshotModel, codec_error_label, codec_label,
    degraded_defaults, degraded_model, fresh_model, fresh_snapshot, notice_model, notice_models, push_notice,
};
use crate::config::files::{FileCall, Recorded, calls_since};
use crate::config::storage::{ConfigFileOps, ConfigIoError, io_detail, joined_path};
use crate::text::{concat2, concat3, decimal, decimal_string};

verus! {

/// What every startup state satisfies: revision 1, at most eight notices, a
/// valid configuration, and a read-only state always explained by a notice.
pub open spec fn startup_state(s: SnapshotModel) -> bool {
    &&& s.revision == 1
    &&& s.notices.len() <= 8
    &&& valid_config(s.config)
    &&& (s.persistence == ConfigPersistence::ReadOnly ==> s.notices.len() >= 1)
}

/// A successfully decoded configuration is valid.
pub proof fn lemma_decoded_is_valid(bytes: Seq<u8>, config: ConfigModel)
    requires
        decode_spec(bytes, Ok(config)),
    ensures
        valid_config(config),
{
}

proof fn lemma_degraded_state(message: Seq<char>, detail: Seq<char>)
    ensures
        startup_state(crate::config::snapshot::degraded_model(message, detail)),
{
    lemma_default_is_valid();
}

/// The read-only defaults explaining a filesystem failure with `message`.
pub open spec fn degraded_by_io(s: SnapshotModel, message: Seq<char>) -> bool {
    exists|error: ConfigIoError| s == #[trigger] degraded_model(message, io_detail(error))
}

/// The read-only defaults explaining that the defaults could not be encoded.
pub open spec fn defaults_unencodable(s: SnapshotModel) -> bool {
    exists|error: CodecFailure|
        #![trigger encode_spec(default_config(), Err(error))]
        encode_spec(default_config(), Err(error)) && s == degraded_model("无法生成默认配置。"@, codec_message(error))
}

/// A backup put back in place: its configuration, ready, with the notice
/// that it was recovered.
pub open spec fn restored_backup(config: ConfigModel, live: Seq<char>) -> SnapshotModel {
    fresh_model(
        config,
        ConfigPersistence::Ready,
        seq![notice_model(ConfigNoticeCode::BackupRecovered, "已从上次保存的配置备份恢复。"@, Some("path="@ + live))],
    )
}

/// A valid backup that could not be put back: its configuration, read-only,
/// with the failure's evidence.
pub open spec fn unrestored_backup(config: ConfigModel, error: ConfigIoError) -> SnapshotModel {
    fresh_model(
        config,
        ConfigPersistence::ReadOnly,
        seq![
            notice_model(
                ConfigNoticeCode::PersistenceUnavailable,
                "找到有效配置备份，但无法恢复到原路径。"@,
                Some(io_detail(error)),
            ),
        ],
    )
}

/// What a recovery gives: the configuration that some backup's bytes decode
/// to, put back in place for `live`, or read-only when it could not be.
pub open spec fn backup_recovery(s: SnapshotModel, live: Seq<char>) -> bool {
    &&& exists|bytes: Seq<u8>| #[trigger] decode_spec(bytes, Ok(s.config))
    &&& (s == restored_backup(s.config, live) || exists|error: ConfigIoError| s == #[trigger] unrestored_backup(s.config, error))
}

/// The notice that an invalid file was kept at `corrupt`.
pub open spec fn corrupt_notice(corrupt: Seq<char>, label: Seq<char>) -> crate::config::snapshot::NoticeModel {
    notice_model(
        ConfigNoticeCode::CorruptConfigPreserved,
        "配置无效，已保留副本并恢复默认值。"@,
        Some("artifact="@ + corrupt + "; decode="@ + label),
    )
}

/// What keeping an undecodable live file gives, `label` naming why it did
/// not decode: the file could not be kept (for a failure, or for want of a
/// free name) and stays untouched under read-only defaults; or it was kept
/// under an owned name and the defaults were installed, or could not be
/// saved (read-only); or the defaults could not be encoded.
pub open spec fn preservation(s: SnapshotModel, directory: Seq<char>, label: Seq<char>, process_id: u32) -> bool {
    ||| exists|error: ConfigIoError|
        s == #[trigger] degraded_model(
            "配置无效且无法安全保留，原文件保持不变。"@,
            "decode="@ + label + "; preserve="@ + io_detail(error),
        )
    ||| s == degraded_model(
        "配置无效且无法取得保留路径，原文件保持不变。"@,
        "decode="@ + label + "; stage=select_corrupt_path; attempts=16"@,
    )
    ||| defaults_unencodable(s)
    ||| exists|corrupt: Seq<char>|
        #![trigger corrupt_notice(corrupt, label)]
        owned_unique_path(corrupt, directory, "config.corrupt"@, process_id, "toml"@) && (s == fresh_model(
            default_config(),
            ConfigPersistence::Ready,
            seq![corrupt_notice(corrupt, label)],
        ) || exists|detail: Option<Seq<char>>| s == #[trigger] kept_but_unsaved(corrupt, label, detail))
}

/// An invalid file kept at `corrupt` whose replacing defaults could not be
/// saved: read-only defaults with both notices.
pub open spec fn kept_but_unsaved(corrupt: Seq<char>, label: Seq<char>, detail: Option<Seq<char>>) -> SnapshotModel {
    fresh_model(
        default_config(),
        ConfigPersistence::ReadOnly,
        seq![
            corrupt_notice(corrupt, label),
            notice_model(ConfigNoticeCode::PersistenceUnavailable, "已保留无效配置，但默认配置无法保存。"@, detail),
        ],
    )
}

/// The read-only defaults for a document from a newer schema.
pub open spec fn future_version(version: u32, live: Seq<char>) -> SnapshotModel {
    fresh_model(
        default_config(),
        ConfigPersistence::ReadOnly,
        seq![
            notice_model(
                ConfigNoticeCode::UnsupportedVersion,
                "配置来自更新版本，当前程序已使用只读默认配置。"@,
                Some("schemaVersion="@ + decimal(version as nat) + "; path="@ + live),
            ),
        ],
    )
}

/// Every startup state that loading `live` in `directory` can give, each
/// for what the filesystem answered: a failure to prepare the directory,
/// inspect the file, list the backups or read the file (read-only
/// defaults); a recovered backup; defaults installed for a missing file, or
/// read-only when they could not be saved or encoded; the decoded file; the
/// read-only defaults for a newer schema; or what keeping an undecodable
/// file gives.
pub open spec fn loaded(s: SnapshotModel, directory: Seq<char>, live: Seq<char>, process_id: u32) -> bool {
    ||| degraded_by_io(s, "无法创建配置目录，已使用只读默认配置。"@)
    ||| degraded_by_io(s, "无法检查配置文件，已使用只读默认配置。"@)
    ||| backup_recovery(s, live)
    ||| degraded_by_io(s, "无法检查配置备份，已使用只读默认配置。"@)
    ||| defaults_unencodable(s)
    ||| s == fresh_model(default_config(), ConfigPersistence::Ready, Seq::empty())
    ||| exists|detail: Seq<char>| s == #[trigger] degraded_model("无法保存默认配置，已进入只读模式。"@, detail)
    ||| degraded_by_io(s, "无法读取配置文件，已使用只读默认配置。"@)
    ||| (s == fresh_model(s.config, ConfigPersistence::Ready, Seq::empty()) && exists|bytes: Seq<u8>|
        #[trigger] decode_spec(bytes, Ok(s.config)))
    ||| exists|bytes: Seq<u8>, version: u32|
        #[trigger] decode_spec(bytes, Err(CodecFailure::Migration(MigrationError::Future(version)))) && s
            == future_version(version, live)
    ||| exists|bytes: Seq<u8>, error: CodecFailure|
        #[trigger] decode_spec(bytes, Err(error)) && !(error matches CodecFailure::Migration(
            MigrationError::Future(_),
        )) && preservation(s, directory, codec_label(error), process_id)
}

// ------------------------------------------------------------ what loading does with the files

/// The bytes decode to some configuration.
pub open spec fn decodes(bytes: Seq<u8>) -> bool {
    exists|c: ConfigModel| #[trigger] decode_spec(bytes, Ok(c))
}

/// `call` read `path` and found bytes that do not decode.
pub open spec fn read_skipped(call: FileCall, path: Seq<char>) -> bool {
    match call {
        FileCall::ReadBounded(read, Ok(bytes)) => read == path && !decodes(bytes),
        _ => false,
    }
}

/// The first `i` listed backups were read and none of them decoded.
pub open spec fn backups_skipped(paths: Seq<Seq<char>>, made: Seq<FileCall>, i: int) -> bool {
    forall|k: int| 0 <= k < i ==> read_skipped(#[trigger] made[1 + k], paths[k])
}

/// The model of what a recovery returned.
pub open spec fn recovered_model(recovered: Result<Option<ConfigSnapshot>, ConfigIoError>) -> Result<Option<SnapshotModel>, ConfigIoError> {
    match recovered {
        Ok(Some(s)) => Ok(Some(s@)),
        Ok(None) => Ok(None),
        Err(e) => Err(e),
    }
}

/// `call` put the backup at `path` (holding `config`) back at `live`, and
/// the recovery returned accordingly.
pub open spec fn backup_put_back(
    live: Seq<char>,
    path: Seq<char>,
    config: ConfigModel,
    call: FileCall,
    recovered: Result<Option<SnapshotModel>, ConfigIoError>,
) -> bool {
    match call {
        FileCall::Restore(backup, target, Ok(_)) => backup == path && target == live && recovered == Ok::<
            Option<SnapshotModel>,
            ConfigIoError,
        >(Some(restored_backup(config, live))),
        FileCall::Restore(backup, target, Err(e)) => backup == path && target == live && recovered == Ok::<
            Option<SnapshotModel>,
            ConfigIoError,
        >(Some(unrestored_backup(config, e))),
        _ => false,
    }
}

/// The read of the `i`-th listed backup, at `path`, and what followed it.
pub open spec fn backup_tried(
    live: Seq<char>,
    path: Seq<char>,
    made: Seq<FileCall>,
    i: int,
    recovered: Result<Option<SnapshotModel>, ConfigIoError>,
) -> bool {
    match made[1 + i] {
        FileCall::ReadBounded(read, answer) => read == path && match answer {
            Err(e) => made.len() == 2 + i && recovered == Err::<Option<SnapshotModel>, ConfigIoError>(e),
            Ok(bytes) => made.len() == 3 + i && backup_decoded(live, path, bytes, made[2 + i], recovered),
        },
        _ => false,
    }
}

/// The backup at `path` holds `bytes`, which decode; `call` put it back.
pub open spec fn backup_decoded(
    live: Seq<char>,
    path: Seq<char>,
    bytes: Seq<u8>,
    call: FileCall,
    recovered: Result<Option<SnapshotModel>, ConfigIoError>,
) -> bool {
    exists|c: ConfigModel| #[trigger] decode_spec(bytes, Ok(c)) && backup_put_back(live, path, c, call, recovered)
}

/// After listing `paths`: the first `i` of them skipped, then either none
/// left, or the `i`-th tried.
pub open spec fn recovery_listed(
    live: Seq<char>,
    paths: Seq<Seq<char>>,
    made: Seq<FileCall>,
    recovered: Result<Option<SnapshotModel>, ConfigIoError>,
) -> bool {
    exists|i: int|
        0 <= i <= paths.len() && #[trigger] backups_skipped(paths, made, i) && if i == paths.len() {
            made.len() == 1 + i && recovered == Ok::<Option<SnapshotModel>, ConfigIoError>(None)
        } else {
            made.len() >= 2 + i && backup_tried(live, paths[i], made, i, recovered)
        }
}

/// What a recovery in `directory` for `live` does with the files: it lists
/// the owned backups, reads them in order until one decodes, and puts that
/// one back at `live`; a failed listing or read ends it with that failure.
pub open spec fn recovery_trace(
    directory: Seq<char>,
    live: Seq<char>,
    made: Seq<FileCall>,
    recovered: Result<Option<SnapshotModel>, ConfigIoError>,
) -> bool {
    made.len() >= 1 && match made[0] {
        FileCall::ListOwnedBackups(listed, Err(e)) => listed == directory && made.len() == 1 && recovered == Err::<
            Option<SnapshotModel>,
            ConfigIoError,
        >(e),
        FileCall::ListOwnedBackups(listed, Ok(paths)) => listed == directory && recovery_listed(live, paths, made, recovered),
        _ => false,
    }
}

/// The owned path a try keeps an invalid file under.
pub open spec fn corrupt_name(directory: Seq<char>, process_id: u32, next: u64) -> Seq<char> {
    joined_path(directory, unique_name("config.corrupt"@, process_id, next, "toml"@))
}

/// `call` tried to move `live` to `destination` and found the name taken.
pub open spec fn name_taken(call: FileCall, live: Seq<char>, destination: Seq<char>) -> bool {
    match call {
        FileCall::Preserve(source, moved_to, Err(e)) => source == live && moved_to == destination && e.kind is AlreadyExists,
        _ => false,
    }
}

/// `call` moved `live` to `destination`.
pub open spec fn file_moved(call: FileCall, live: Seq<char>, destination: Seq<char>) -> bool {
    match call {
        FileCall::Preserve(source, moved_to, Ok(_)) => source == live && moved_to == destination,
        _ => false,
    }
}

/// The first `k` tries to keep the invalid file met a taken name.
pub open spec fn preserve_attempts(
    directory: Seq<char>,
    live: Seq<char>,
    process_id: u32,
    next: u64,
    made: Seq<FileCall>,
    k: int,
) -> bool {
    forall|j: int|
        0 <= j < k ==> name_taken(#[trigger] made[j], live, corrupt_name(directory, process_id, advanced_times(next, j as nat)))
}

/// What writing the defaults to `live` does with the files (`kept` names
/// the invalid file kept before, with why it did not decode): the encoded
/// defaults go through the persistence protocol, and the snapshot is the
/// ready defaults when the file was installed or replaced, read-only
/// otherwise; when the defaults cannot be encoded, no file is touched.
pub open spec fn defaults_written(
    directory: Seq<char>,
    live: Seq<char>,
    process_id: u32,
    next: u64,
    kept: Option<(Seq<char>, Seq<char>)>,
    made: Seq<FileCall>,
    s: SnapshotModel,
) -> bool {
    ||| (made.len() == 0 && defaults_unencodable(s))
    ||| exists|bytes: Seq<u8>|
        #[trigger] encode_spec(default_config(), Ok(bytes)) && {
            let end = persist_run(
                persist_args(directory, live, bytes, "config.backup"@, process_id),
                persist_start(next),
                made,
            );
            match end.stage {
                PersistStage::Installed | PersistStage::Replaced => match kept {
                    None => s == fresh_model(default_config(), ConfigPersistence::Ready, Seq::empty()),
                    Some((corrupt, label)) => s == fresh_model(
                        default_config(),
                        ConfigPersistence::Ready,
                        seq![corrupt_notice(corrupt, label)],
                    ),
                },
                PersistStage::Failed => match kept {
                    None => s == degraded_model("无法保存默认配置，已进入只读模式。"@, failure_detail(end)),
                    Some((corrupt, label)) => s == kept_but_unsaved(corrupt, label, Some(failure_detail(end))),
                },
                _ => false,
            }
        }
}

/// The `k`-th try to keep the invalid file, which met no taken name, and
/// what followed it.
pub open spec fn preserve_tried(
    directory: Seq<char>,
    live: Seq<char>,
    process_id: u32,
    next: u64,
    label: Seq<char>,
    made: Seq<FileCall>,
    k: int,
    s: SnapshotModel,
) -> bool {
    let destination = corrupt_name(directory, process_id, advanced_times(next, k as nat));
    match made[k] {
        FileCall::Preserve(source, moved_to, Err(e)) => source == live && moved_to == destination && !(e.kind is AlreadyExists)
            && made.len() == k + 1 && s == degraded_model(
            "配置无效且无法安全保留，原文件保持不变。"@,
            "decode="@ + label + "; preserve="@ + io_detail(e),
        ),
        FileCall::Preserve(source, moved_to, Ok(_)) => source == live && moved_to == destination && defaults_written(
            directory,
            live,
            process_id,
            advanced_times(next, (k + 1) as nat),
            Some((destination, label)),
            made.subrange(k + 1, made.len() as int),
            s,
        ),
        _ => false,
    }
}

/// What keeping an invalid live file does with the files: it tries fresh
/// owned names (16 at most) until one is free, moving the file there, then
/// writes the defaults; a failed move, or no free name, leaves the file
/// untouched under read-only defaults.
pub open spec fn preservation_trace(
    directory: Seq<char>,
    live: Seq<char>,
    process_id: u32,
    next: u64,
    label: Seq<char>,
    made: Seq<FileCall>,
    s: SnapshotModel,
) -> bool {
    exists|k: int|
        0 <= k <= UNIQUE_PATH_ATTEMPTS && #[trigger] preserve_attempts(directory, live, process_id, next, made, k)
            && if k == UNIQUE_PATH_ATTEMPTS {
            made.len() == k && s == degraded_model(
                "配置无效且无法取得保留路径，原文件保持不变。"@,
                "decode="@ + label + "; stage=select_corrupt_path; attempts=16"@,
            )
        } else {
            made.len() > k && preserve_tried(directory, live, process_id, next, label, made, k, s)
        }
}

/// What a valid, newer-schema or otherwise invalid live file gives.
pub open spec fn live_read(
    directory: Seq<char>,
    live: Seq<char>,
    process_id: u32,
    next: u64,
    bytes: Seq<u8>,
    made: Seq<FileCall>,
    s: SnapshotModel,
) -> bool {
    exists|r: Result<ConfigModel, CodecFailure>|
        #[trigger] decode_spec(bytes, r) && match r {
            Ok(c) => made.len() == 3 && s == fresh_model(c, ConfigPersistence::Ready, Seq::empty()),
            Err(CodecFailure::Migration(MigrationError::Future(version))) => made.len() == 3 && s == future_version(
                version,
                live,
            ),
            Err(e) => preservation_trace(
                directory,
                live,
                process_id,
                next,
                codec_label(e),
                made.subrange(3, made.len() as int),
                s,
            ),
        }
}

/// What a missing live file gives: a recovered backup, else the defaults.
pub open spec fn live_missing(
    directory: Seq<char>,
    live: Seq<char>,
    process_id: u32,
    next: u64,
    made: Seq<FileCall>,
    s: SnapshotModel,
) -> bool {
    exists|k: int, r: Result<Option<SnapshotModel>, ConfigIoError>|
        2 < k <= made.len() && #[trigger] recovery_trace(directory, live, made.subrange(2, k), r) && match r {
            Ok(Some(recovered)) => k == made.len() && s == recovered,
            Err(e) => k == made.len() && s == degraded_model("无法检查配置备份，已使用只读默认配置。"@, io_detail(e)),
            Ok(None) => defaults_written(directory, live, process_id, next, None, made.subrange(k, made.len() as int), s),
        }
}

/// What happened after the live file was looked for.
pub open spec fn live_looked_for(
    directory: Seq<char>,
    live: Seq<char>,
    process_id: u32,
    next: u64,
    made: Seq<FileCall>,
    s: SnapshotModel,
) -> bool {
    match made[1] {
        FileCall::PathExists(looked, Err(e)) => looked == live && made.len() == 2 && s == degraded_model(
            "无法检查配置文件，已使用只读默认配置。"@,
            io_detail(e),
        ),
        FileCall::PathExists(looked, Ok(false)) => looked == live && live_missing(directory, live, process_id, next, made, s),
        FileCall::PathExists(looked, Ok(true)) => looked == live && made.len() >= 3 && match made[2] {
            FileCall::ReadBounded(read, Err(e)) => read == live && made.len() == 3 && s == degraded_model(
                "无法读取配置文件，已使用只读默认配置。"@,
                io_detail(e),
            ),
            FileCall::ReadBounded(read, Ok(bytes)) => read == live && live_read(
                directory,
                live,
                process_id,
                next,
                bytes,
                made,
                s,
            ),
            _ => false,
        },
        _ => false,
    }
}

/// What loading `live` in `directory` does with the files, and the snapshot
/// it gives for each answer: prepare the directory, look for the file; when
/// it is missing, recover an owned backup or write the defaults; when it is
/// there, read it: a valid file is used as is, a file of a newer schema is
/// left untouched under read-only defaults, and any other invalid file is
/// kept aside before the defaults are written. Each failed operation ends
/// loading with the read-only defaults explaining it.
pub open spec fn load_trace(
    directory: Seq<char>,
    live: Seq<char>,
    process_id: u32,
    next: u64,
    made: Seq<FileCall>,
    s: SnapshotModel,
) -> bool {
    made.len() >= 1 && match made[0] {
        FileCall::CreateDirAll(prepared, Err(e)) => prepared == directory && made.len() == 1 && s == degraded_model(
            "无法创建配置目录，已使用只读默认配置。"@,
            io_detail(e),
        ),
        FileCall::CreateDirAll(prepared, Ok(_)) => prepared == directory && made.len() >= 2 && live_looked_for(
            directory,
            live,
            process_id,
            next,
            made,
            s,
        ),
        _ => false,
    }
}

/// Bytes that decode to a configuration decode to nothing else.
pub(crate) proof fn lemma_decode_functional(bytes: Seq<u8>, config: ConfigModel, other: Result<ConfigModel, CodecFailure>)
    requires
        decode_spec(bytes, Ok(config)),
        decode_spec(bytes, other),
    ensures
        other == Ok::<ConfigModel, CodecFailure>(config),
{
}

/// The encoded default configuration, or the read-only defaults explaining
/// why it could not be encoded.
fn encoded_defaults() -> (bytes: Result<Vec<u8>, ConfigSnapshot>)
    ensures
        bytes matches Ok(b) ==> encode_spec(default_config(), Ok(b@)),
        bytes matches Err(s) ==> startup_state(s@) && defaults_unencodable(s@),
{
    let defaults = AppConfig::default();
    let encoded_result = encode(&defaults);
    assert(encode_spec(default_config(), encoded(encoded_result)));
    match encoded_result {
        Ok(bytes) => Ok(bytes),
        Err(error) => {
            let detail = error.message();
            proof { lemma_degraded_state("无法生成默认配置。"@, detail@); }
            let snapshot = degraded_defaults("无法生成默认配置。", detail);
            assert(encode_spec(default_config(), Err(error@)));
            Err(snapshot)
        },
    }
}

/// Restores the newest owned backup that decodes; `None` when there is none.
pub fn recover_owned_backup<F: ConfigFileOps>(files: &mut Recorded<F>, directory: &str, live: &str) -> (recovered: Result<Option<ConfigSnapshot>, ConfigIoError>)
    ensures
        recovered matches Ok(Some(s)) ==> startup_state(s@) && s@.notices.len() == 1 && backup_recovery(s@, live@),
        extends(old(files).calls(), final(files).calls()),
        recovery_trace(
            directory@,
            live@,
            calls_since(final(files).calls(), old(files).calls().len() as int),
            recovered_model(recovered),
        ),
{
    let ghost start = files.calls().len() as int;
    let listed = files.list_owned_backups(directory);
    let ghost first = files.calls()[start];
    assert(calls_since(files.calls(), start)[0] == first);
    let backups = match listed {
        Ok(backups) => backups,
        Err(error) => {
            assert(calls_since(files.calls(), start).len() == 1);
            return Err(error);
        },
    };
    let ghost paths = backups@.map_values(|p: String| p@);
    assert(first == FileCall::ListOwnedBackups(directory@, Ok::<Seq<Seq<char>>, ConfigIoError>(paths)));
    let mut i: usize = 0;
    while i < backups.len()
        invariant
            start == old(files).calls().len(),
            extends(old(files).calls(), files.calls()),
            paths == backups@.map_values(|p: String| p@),
            paths.len() == backups@.len(),
            i <= backups@.len(),
            calls_since(files.calls(), start).len() == 1 + i,
            calls_since(files.calls(), start)[0] == first,
            first == FileCall::ListOwnedBackups(directory@, Ok::<Seq<Seq<char>>, ConfigIoError>(paths)),
            backups_skipped(paths, calls_since(files.calls(), start), i as int),
        decreases backups@.len() - i,
    {
        let ghost before = calls_since(files.calls(), start);
        let read = files.read_bounded(backups[i].as_str());
        let ghost made = calls_since(files.calls(), start);
        assert(made =~= before.push(files.calls().last()));
        assert(made[0] == first);
        assert(made[1 + i] == FileCall::ReadBounded(backups@[i as int]@, crate::config::files::bytes_answer(read)));
        assert(paths[i as int] == backups@[i as int]@);
        assert(backups_skipped(paths, made, i as int)) by {
            assert forall|k: int| 0 <= k < i implies read_skipped(#[trigger] made[1 + k], paths[k]) by {
                assert(made[1 + k] == before[1 + k]);
            }
        }
        let ghost read_answer = crate::config::files::bytes_answer(read);
        let bytes = match read {
            Ok(bytes) => bytes,
            Err(error) => {
                assert(backup_tried(live@, paths[i as int], made, i as int, recovered_model(Err(error))));
                assert(made.len() >= 2 + i);
                assert(made[0] == FileCall::ListOwnedBackups(directory@, Ok::<Seq<Seq<char>>, ConfigIoError>(paths)));
                assert(0 <= i <= paths.len() && backups_skipped(paths, made, i as int) && i != paths.len());
                assert(recovery_listed(live@, paths, made, recovered_model(Err(error))));
                assert(recovery_trace(directory@, live@, made, recovered_model(Err(error))));
                return Err(error);
            },
        };
        assert(read_answer == Ok::<Seq<u8>, ConfigIoError>(bytes@));
        assert(made[1 + i] == FileCall::ReadBounded(paths[i as int], Ok::<Seq<u8>, ConfigIoError>(bytes@)));
        let decoded_backup = decode(bytes.as_slice());
        assert(decode_spec(bytes@, decoded(decoded_backup)));
        match decoded_backup {
            Err(_) => {
                proof {
                    if decodes(bytes@) {
                        let c = choose|c: ConfigModel| #[trigger] decode_spec(bytes@, Ok(c));
                        lemma_decode_functional(bytes@, c, decoded(decoded_backup));
                    }
                    assert(read_skipped(made[1 + i], paths[i as int]));
                    assert forall|k: int| 0 <= k < i + 1 implies read_skipped(#[trigger] made[1 + k], paths[k]) by {
                        if k < i {
                        }
                    }
                }
            },
            Ok(config) => {
                proof { lemma_decoded_is_valid(bytes@, config@); }
                assert(decode_spec(bytes@, Ok(config@)));
                let detail = concat2("path=", live);
                let restore = files.restore_backup_noreplace(backups[i].as_str(), live);
                let ghost done = calls_since(files.calls(), start);
                assert(done =~= made.push(files.calls().last()));
                assert(done[0] == first);
                assert(done[1 + i] == made[1 + i]);
                assert(backups_skipped(paths, done, i as int)) by {
                    assert forall|k: int| 0 <= k < i implies read_skipped(#[trigger] done[1 + k], paths[k]) by {
                        assert(done[1 + k] == made[1 + k]);
                    }
                }
                let snapshot = match restore {
                    Ok(()) => {
                        let notice = ConfigNotice::new(
                            ConfigNoticeCode::BackupRecovered,
                            "已从上次保存的配置备份恢复。",
                            Some(detail),
                        );
                        let notices = vec![notice];
                        assert(notice_models(notices@) =~= seq![notice@]);
                        let restored = fresh_snapshot(config, ConfigPersistence::Ready, notices);
                        assert(restored@ == restored_backup(config@, live@));
                        restored
                    },
                    Err(error) => {
                        let notice = ConfigNotice::new(
                            ConfigNoticeCode::PersistenceUnavailable,
                            "找到有效配置备份，但无法恢复到原路径。",
                            Some(error.detail()),
                        );
                        let notices = vec![notice];
                        assert(notice_models(notices@) =~= seq![notice@]);
                        let unrestored = fresh_snapshot(config, ConfigPersistence::ReadOnly, notices);
                        assert(unrestored@ == unrestored_backup(config@, error));
                        unrestored
                    },
                };
                assert(backup_put_back(live@, paths[i as int], config@, done[2 + i], recovered_model(Ok(Some(snapshot)))));
                assert(done.len() == 3 + i);
                assert(done[1 + i] == FileCall::ReadBounded(paths[i as int], Ok::<Seq<u8>, ConfigIoError>(bytes@)));
                assert(backup_decoded(live@, paths[i as int], bytes@, done[2 + i], recovered_model(Ok(Some(snapshot)))));
                assert(backup_tried(live@, paths[i as int], done, i as int, recovered_model(Ok(Some(snapshot)))));
                return Ok(Some(snapshot));
            },
        }
        i += 1;
    }
    Ok(None)
}

/// Keeps an undecodable live file under a fresh owned name, then installs
/// defaults. If the file cannot be kept, it stays untouched and the state is
/// read-only.
pub fn preserve_corrupt_and_create_defaults<F: ConfigFileOps>(
    files: &mut Recorded<F>,
    names: &mut PathSequence,
    directory: &str,
    live: &str,
    decode_error: &ConfigCodecError,
) -> (snapshot: ConfigSnapshot)
    ensures
        startup_state(snapshot@),
        preservation(snapshot@, directory@, codec_label(decode_error@), old(names).process_id),
        final(names).process_id == old(names).process_id,
        extends(old(files).calls(), final(files).calls()),
        preservation_trace(
            directory@,
            live@,
            old(names).process_id,
            old(names).next,
            codec_label(decode_error@),
            calls_since(final(files).calls(), old(files).calls().len() as int),
            snapshot@,
        ),
{
    let ghost process_id = names.process_id;
    let ghost start = files.calls().len() as int;
    let label = codec_error_label(decode_error);
    let mut preserved: Option<String> = None;
    let mut attempt: usize = 0;
    assert(calls_since(files.calls(), start) =~= Seq::<FileCall>::empty());
    while attempt < UNIQUE_PATH_ATTEMPTS
        invariant_except_break
            names.process_id == process_id,
            preserved is None,
            label@ == codec_label(decode_error@),
            process_id == old(names).process_id,
            start == old(files).calls().len(),
            extends(old(files).calls(), files.calls()),
            attempt <= UNIQUE_PATH_ATTEMPTS,
            names.next == advanced_times(old(names).next, attempt as nat),
            calls_since(files.calls(), start).len() == attempt,
            preserve_attempts(directory@, live@, process_id, old(names).next, calls_since(files.calls(), start), attempt as int),
        ensures
            names.process_id == process_id,
            process_id == old(names).process_id,
            start == old(files).calls().len(),
            extends(old(files).calls(), files.calls()),
            label@ == codec_label(decode_error@),
            preserved matches Some(corrupt) ==> owned_unique_path(
                corrupt@,
                directory@,
                "config.corrupt"@,
                process_id,
                "toml"@,
            ) && attempt < UNIQUE_PATH_ATTEMPTS && calls_since(files.calls(), start).len() == attempt + 1
                && preserve_attempts(directory@, live@, process_id, old(names).next, calls_since(files.calls(), start), attempt as int)
                && file_moved(calls_since(files.calls(), start)[attempt as int], live@, corrupt@) && corrupt@ == corrupt_name(directory@, process_id, advanced_times(old(names).next, attempt as nat))
                && names.next == advanced_times(old(names).next, (attempt + 1) as nat),
            preserved is None ==> attempt == UNIQUE_PATH_ATTEMPTS && calls_since(files.calls(), start).len() == attempt
                && preserve_attempts(directory@, live@, process_id, old(names).next, calls_since(files.calls(), start), attempt as int),
        decreases UNIQUE_PATH_ATTEMPTS - attempt,
    {
        let ghost sequence = names.next;
        let ghost before = calls_since(files.calls(), start);
        let corrupt = unique_path(names, directory, "config.corrupt", "toml");
        assert(corrupt@ == joined_path(directory@, unique_name("config.corrupt"@, process_id, sequence, "toml"@)));
        assert(owned_unique_path(corrupt@, directory@, "config.corrupt"@, process_id, "toml"@));
        assert(names.next == advanced_times(old(names).next, (attempt + 1) as nat));
        let kept = files.preserve_corrupt_noreplace(live, corrupt.as_str());
        let ghost made = calls_since(files.calls(), start);
        assert(made =~= before.push(files.calls().last()));
        assert(preserve_attempts(directory@, live@, process_id, old(names).next, made, attempt as int)) by {
            assert forall|j: int| 0 <= j < attempt implies name_taken(
                #[trigger] made[j],
                live@,
                corrupt_name(directory@, process_id, advanced_times(old(names).next, j as nat)),
            ) by {
                assert(made[j] == before[j]);
            }
        }
        let ghost answer = kept;
        assert(made[attempt as int] == FileCall::Preserve(live@, corrupt@, answer));
        match kept {
            Ok(()) => {
                assert(answer is Ok);
                assert(file_moved(made[attempt as int], live@, corrupt@));
                assert(corrupt@ == corrupt_name(directory@, process_id, advanced_times(old(names).next, attempt as nat)));
                preserved = Some(corrupt);
                break;
            },
            Err(error) => {
                if !error.kind.is_already_exists() {
                    let mut detail = concat3("decode=", label, "; preserve=");
                    detail.append(error.detail().as_str());
                    assert(detail@ =~= "decode="@ + codec_label(decode_error@) + "; preserve="@ + io_detail(error));
                    proof { lemma_degraded_state("配置无效且无法安全保留，原文件保持不变。"@, detail@); }
                    let snapshot = degraded_defaults("配置无效且无法安全保留，原文件保持不变。", detail);
                    assert(snapshot@ == degraded_model(
                        "配置无效且无法安全保留，原文件保持不变。"@,
                        "decode="@ + codec_label(decode_error@) + "; preserve="@ + io_detail(error),
                    ));
                    assert(preserve_tried(directory@, live@, process_id, old(names).next, codec_label(decode_error@), made, attempt as int, snapshot@));
                    return snapshot;
                }
                assert(preserve_attempts(directory@, live@, process_id, old(names).next, made, attempt + 1)) by {
                    assert forall|j: int| 0 <= j < attempt + 1 implies name_taken(
                        #[trigger] made[j],
                        live@,
                        corrupt_name(directory@, process_id, advanced_times(old(names).next, j as nat)),
                    ) by {
                        if j < attempt {
                        }
                    }
                }
            },
        }
        attempt += 1;
    }
    let ghost made = calls_since(files.calls(), start);
    let corrupt = match preserved {
        Some(corrupt) => corrupt,
        None => {
            let detail = concat3("decode=", label, "; stage=select_corrupt_path; attempts=16");
            proof { lemma_degraded_state("配置无效且无法取得保留路径，原文件保持不变。"@, detail@); }
            return degraded_defaults("配置无效且无法取得保留路径，原文件保持不变。", detail);
        },
    };
    let ghost kept_at = attempt as int;
    let ghost label_view = codec_label(decode_error@);
    let mut notice_detail = concat2("artifact=", corrupt.as_str());
    notice_detail.append("; decode=");
    notice_detail.append(label);
    let notice = ConfigNotice::new(
        ConfigNoticeCode::CorruptConfigPreserved,
        "配置无效，已保留副本并恢复默认值。",
        Some(notice_detail),
    );
    assert(notice@ == corrupt_notice(corrupt@, label_view));
    let bytes = match encoded_defaults() {
        Ok(bytes) => bytes,
        Err(snapshot) => {
            assert(made.subrange(kept_at + 1, made.len() as int) =~= Seq::<FileCall>::empty());
            assert(preserve_tried(directory@, live@, process_id, old(names).next, label_view, made, kept_at, snapshot@));
            return snapshot;
        },
    };
    proof { lemma_default_is_valid(); }
    let ghost persist_next = names.next;
    let ghost before_persist = files.calls();
    let persisted = persist_bytes(files, names, directory, live, bytes.as_slice(), "config.backup");
    let ghost done = calls_since(files.calls(), start);
    let ghost end = persist_run(
        persist_args(directory@, live@, bytes@, "config.backup"@, process_id),
        persist_start(persist_next),
        calls_since(files.calls(), before_persist.len() as int),
    );
    assert(done.subrange(kept_at + 1, done.len() as int) =~= calls_since(files.calls(), before_persist.len() as int));
    assert(done[kept_at] == made[kept_at]);
    assert(preserve_attempts(directory@, live@, process_id, old(names).next, done, kept_at)) by {
        assert forall|j: int| 0 <= j < kept_at implies name_taken(
            #[trigger] done[j],
            live@,
            corrupt_name(directory@, process_id, advanced_times(old(names).next, j as nat)),
        ) by {
            assert(done[j] == made[j]);
        }
    }
    let snapshot = match persisted {
        Ok(_) => {
            let notices = vec![notice];
            assert(notice_models(notices@) =~= seq![notice@]);
            fresh_snapshot(AppConfig::default(), ConfigPersistence::Ready, notices)
        },
        Err(failure) => {
            let mut notices = vec![notice];
            assert(notice_models(notices@) =~= seq![notice@]);
            let ghost unsaved_detail = crate::error::opt_view(failure.error.detail);
            let unsaved = ConfigNotice::new(
                ConfigNoticeCode::PersistenceUnavailable,
                "已保留无效配置，但默认配置无法保存。",
                failure.error.detail,
            );
            let ghost unsaved_model = unsaved@;
            push_notice(&mut notices, unsaved);
            assert(notice_models(notices@) =~= seq![notice@, unsaved_model]);
            let snapshot = fresh_snapshot(AppConfig::default(), ConfigPersistence::ReadOnly, notices);
            assert(snapshot@ == kept_but_unsaved(corrupt@, label_view, unsaved_detail));
            snapshot
        },
    };
    assert(encode_spec(default_config(), Ok(bytes@)));
    assert(defaults_written(
        directory@,
        live@,
        process_id,
        advanced_times(old(names).next, (kept_at + 1) as nat),
        Some((corrupt@, label_view)),
        done.subrange(kept_at + 1, done.len() as int),
        snapshot@,
    ));
    assert(preserve_tried(directory@, live@, process_id, old(names).next, label_view, done, kept_at, snapshot@));
    snapshot
}

/// The startup state of the configuration in `directory`, whose live file is
/// `live`.
#[verifier::spinoff_prover]
#[verifier::rlimit(50)]
pub fn load_snapshot<F: ConfigFileOps>(files: &mut Recorded<F>, names: &mut PathSequence, directory: &str, live: &str) -> (snapshot: ConfigSnapshot)
    ensures
        startup_state(snapshot@),
        loaded(snapshot@, directory@, live@, old(names).process_id),
        final(names).process_id == old(names).process_id,
        extends(old(files).calls(), final(files).calls()),
        load_trace(
            directory@,
            live@,
            old(names).process_id,
            old(names).next,
            calls_since(final(files).calls(), old(files).calls().len() as int),
            snapshot@,
        ),
{
    let ghost start = files.calls().len() as int;
    let ghost pid = names.process_id;
    let ghost next = names.next;
    let prepared = files.create_dir_all(directory);
    let ghost made1 = calls_since(files.calls(), start);
    assert(made1[0] == files.calls().last());
    match prepared {
        Ok(()) => {},
        Err(error) => {
            let detail = error.detail();
            proof { lemma_degraded_state("无法创建配置目录，已使用只读默认配置。"@, detail@); }
            return degraded_defaults("无法创建配置目录，已使用只读默认配置。", detail);
        },
    }
    let looked = files.path_exists(live);
    let ghost made2 = calls_since(files.calls(), start);
    assert(made2 =~= made1.push(files.calls().last()));
    let exists = match looked {
        Ok(exists) => exists,
        Err(error) => {
            let detail = error.detail();
            proof { lemma_degraded_state("无法检查配置文件，已使用只读默认配置。"@, detail@); }
            return degraded_defaults("无法检查配置文件，已使用只读默认配置。", detail);
        },
    };
    if !exists {
        let ghost before_recovery = files.calls();
        let recovered = recover_owned_backup(files, directory, live);
        let ghost made3 = calls_since(files.calls(), start);
        let ghost k = made3.len() as int;
        let ghost r = recovered_model(recovered);
        assert(made3.subrange(2, k) =~= calls_since(files.calls(), before_recovery.len() as int));
        assert(made3[0] == made1[0] && made3[1] == made2[1]);
        assert(recovery_trace(directory@, live@, made3.subrange(2, k), r));
        match recovered {
            Ok(Some(recovered)) => {
                assert(live_missing(directory@, live@, pid, next, made3, recovered@));
                return recovered;
            },
            Ok(None) => {},
            Err(error) => {
                let detail = error.detail();
                proof { lemma_degraded_state("无法检查配置备份，已使用只读默认配置。"@, detail@); }
                let degraded = degraded_defaults("无法检查配置备份，已使用只读默认配置。", detail);
                assert(live_missing(directory@, live@, pid, next, made3, degraded@));
                return degraded;
            },
        }
        let bytes = match encoded_defaults() {
            Ok(bytes) => bytes,
            Err(snapshot) => {
                assert(made3.subrange(k, k) =~= Seq::<FileCall>::empty());
                assert(defaults_written(directory@, live@, pid, next, None, made3.subrange(k, k), snapshot@));
                assert(live_missing(directory@, live@, pid, next, made3, snapshot@));
                return snapshot;
            },
        };
        proof { lemma_default_is_valid(); }
        let ghost before_persist = files.calls();
        let persisted = persist_bytes(files, names, directory, live, bytes.as_slice(), "config.backup");
        let ghost made4 = calls_since(files.calls(), start);
        assert(made4.subrange(k, made4.len() as int) =~= calls_since(files.calls(), before_persist.len() as int));
        assert(made4.subrange(2, k) =~= made3.subrange(2, k));
        assert(made4[0] == made1[0] && made4[1] == made2[1]);
        let snapshot = match persisted {
            Ok(_) => {
                let none: Vec<ConfigNotice> = Vec::new();
                assert(notice_models(none@) =~= Seq::empty());
                fresh_snapshot(AppConfig::default(), ConfigPersistence::Ready, none)
            },
            Err(failure) => {
                let detail = match failure.error.detail {
                    Some(detail) => detail,
                    None => String::new(),
                };
                proof { lemma_degraded_state("无法保存默认配置，已进入只读模式。"@, detail@); }
                degraded_defaults("无法保存默认配置，已进入只读模式。", detail)
            },
        };
        assert(encode_spec(default_config(), Ok(bytes@)));
        assert(defaults_written(directory@, live@, pid, next, None, made4.subrange(k, made4.len() as int), snapshot@));
        assert(live_missing(directory@, live@, pid, next, made4, snapshot@));
        return snapshot;
    }
    let read = files.read_bounded(live);
    let ghost made3 = calls_since(files.calls(), start);
    assert(made3 =~= made2.push(files.calls().last()));
    let bytes = match read {
        Ok(bytes) => bytes,
        Err(error) => {
            let detail = error.detail();
            proof { lemma_degraded_state("无法读取配置文件，已使用只读默认配置。"@, detail@); }
            return degraded_defaults("无法读取配置文件，已使用只读默认配置。", detail);
        },
    };
    let decoded_live = decode(bytes.as_slice());
    assert(decode_spec(bytes@, decoded(decoded_live)));
    match decoded_live {
        Ok(config) => {
            proof { lemma_decoded_is_valid(bytes@, config@); }
            assert(decode_spec(bytes@, Ok(config@)));
            let none: Vec<ConfigNotice> = Vec::new();
            assert(notice_models(none@) =~= Seq::empty());
            let current = fresh_snapshot(config, ConfigPersistence::Ready, none);
            assert(live_read(directory@, live@, pid, next, bytes@, made3, current@));
            current
        },
        Err(ConfigCodecError::Migration(MigrationError::Future(version))) => {
            let mut detail = concat3("schemaVersion=", decimal_string(version as u64).as_str(), "; path=");
            detail.append(live);
            let notice = ConfigNotice::new(
                ConfigNoticeCode::UnsupportedVersion,
                "配置来自更新版本，当前程序已使用只读默认配置。",
                Some(detail),
            );
            proof { lemma_default_is_valid(); }
            let notices = vec![notice];
            assert(notice_models(notices@) =~= seq![notice@]);
            let newer = fresh_snapshot(AppConfig::default(), ConfigPersistence::ReadOnly, notices);
            assert(decode_spec(bytes@, Err(CodecFailure::Migration(MigrationError::Future(version)))));
            assert(newer@ == future_version(version, live@));
            assert(live_read(directory@, live@, pid, next, bytes@, made3, newer@));
            newer
        },
        Err(error) => {
            assert(decode_spec(bytes@, Err(error@)));
            let ghost before_keep = files.calls();
            let kept = preserve_corrupt_and_create_defaults(files, names, directory, live, &error);
            let ghost made4 = calls_since(files.calls(), start);
            assert(made4.subrange(3, made4.len() as int) =~= calls_since(files.calls(), before_keep.len() as int));
            assert(made4[0] == made1[0] && made4[1] == made2[1] && made4[2] == made3[2]);
            assert(live_read(directory@, live@, pid, next, bytes@, made4, kept@));
            kept
        },
    }
}

} // verus!
