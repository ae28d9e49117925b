use wubilex::config::service::is_owned_alias;
use std::cell::RefCell;
use std::collections::{BTreeMap, BTreeSet};
use std::rc::Rc;

use wubilex::config::codec::{decode, encode};
use wubilex::config::model::{AppConfig, BindingOverride, KeymapConfig, UiConfig, WindowBounds, WindowConfig};
use wubilex::config::files::Recorded;
use wubilex::config::persist::{persist_bytes, PathSequence, UNIQUE_PATH_ATTEMPTS};
use wubilex::config::service::{ConfigGroup, ConfigPathRequest, ConfigService};
use wubilex::config::snapshot::{ConfigNoticeCode, ConfigPersistence};
use wubilex::config::storage::{ConfigFileOps, ConfigIoError, ReplaceFileError, ReplacementDisposition};
use wubilex::error::{AppErrorCode, IoErrorKind};

#[derive(Default)]
struct Disk {
    files: BTreeMap<String, (Vec<u8>, u64)>,
    directories: BTreeSet<String>,
    clock: u64,
}

#[derive(Clone, Copy, Debug, PartialEq, Eq)]
enum Fault {
    Plain,
    Create,
    CreateCollision,
    Write,
    Flush,
    Sync,
    Close,
    InspectTarget,
    SelectBackup,
    Replace,
    ReplaceAndCleanup,
    Replace1177,
    ReplaceThenRestoreFails,
    InstallRace,
    PreserveCorrupt,
    ListBackups,
    ReadBackup,
}

#[derive(Clone)]
struct MemoryOps {
    disk: Rc<RefCell<Disk>>,
    fault: Fault,
    calls: Rc<RefCell<Vec<&'static str>>>,
}

impl MemoryOps {
    fn new(fault: Fault) -> Self {
        MemoryOps { disk: Rc::new(RefCell::new(Disk::default())), fault, calls: Rc::new(RefCell::new(Vec::new())) }
    }

    fn with_disk(&self, fault: Fault) -> Self {
        MemoryOps { disk: Rc::clone(&self.disk), fault, calls: Rc::new(RefCell::new(Vec::new())) }
    }

    fn write(&self, path: &str, bytes: &[u8]) {
        let mut disk = self.disk.borrow_mut();
        disk.clock += 1;
        let clock = disk.clock;
        disk.files.insert(path.to_owned(), (bytes.to_vec(), clock));
    }

    fn read(&self, path: &str) -> Option<Vec<u8>> {
        self.disk.borrow().files.get(path).map(|(bytes, _)| bytes.clone())
    }

    fn names(&self) -> Vec<String> {
        self.disk.borrow().files.keys().cloned().collect()
    }

    fn record(&self, call: &'static str) {
        self.calls.borrow_mut().push(call);
    }

    fn error(stage: &str, path: &str, kind: IoErrorKind) -> ConfigIoError {
        ConfigIoError { stage: stage.to_owned(), path: path.to_owned(), kind, code: 0, message: format!("simulated {stage}") }
    }

    fn rename(&self, from: &str, to: &str, stage: &str, no_replace: bool) -> Result<(), ConfigIoError> {
        let mut disk = self.disk.borrow_mut();
        if no_replace && disk.files.contains_key(to) {
            return Err(Self::error(stage, to, IoErrorKind::AlreadyExists));
        }
        match disk.files.remove(from) {
            Some(entry) => {
                disk.files.insert(to.to_owned(), entry);
                Ok(())
            }
            None => Err(Self::error(stage, from, IoErrorKind::NotFound)),
        }
    }
}

impl ConfigFileOps for MemoryOps {
    type Pending = Vec<u8>;

    fn create_dir_all(&self, path: &str) -> Result<(), ConfigIoError> {
        self.record("create_dir_all");
        self.disk.borrow_mut().directories.insert(path.to_owned());
        Ok(())
    }

    fn path_exists(&self, path: &str) -> Result<bool, ConfigIoError> {
        if self.fault == Fault::InspectTarget && path.ends_with("/config.toml") && self.calls.borrow().contains(&"create")
        {
            return Err(Self::error("inspect_config_target", path, IoErrorKind::PermissionDenied));
        }
        if self.fault == Fault::SelectBackup && path.contains("/config.backup-") {
            return Err(Self::error("inspect_backup_path", path, IoErrorKind::PermissionDenied));
        }
        let disk = self.disk.borrow();
        Ok(disk.files.contains_key(path) || disk.directories.contains(path))
    }

    fn path_is_directory(&self, path: &str) -> Result<bool, ConfigIoError> {
        Ok(self.disk.borrow().directories.contains(path))
    }

    fn canonicalize_existing(&self, path: &str) -> Result<Option<String>, ConfigIoError> {
        let normalized = path.replace("/./", "/");
        let disk = self.disk.borrow();
        Ok((disk.files.contains_key(&normalized) || disk.directories.contains(&normalized)).then_some(normalized))
    }

    fn read_bounded(&self, path: &str) -> Result<Vec<u8>, ConfigIoError> {
        if self.fault == Fault::ReadBackup && path.contains("/config.backup-") {
            return Err(Self::error("read_owned_backup", path, IoErrorKind::PermissionDenied));
        }
        self.read(path).ok_or_else(|| Self::error("open_config", path, IoErrorKind::NotFound))
    }

    fn list_owned_backups(&self, directory: &str) -> Result<Vec<String>, ConfigIoError> {
        if self.fault == Fault::ListBackups {
            return Err(Self::error("list_config_backups", directory, IoErrorKind::PermissionDenied));
        }
        let disk = self.disk.borrow();
        let prefix = format!("{directory}/config.backup-");
        let mut backups: Vec<(u64, String)> = disk
            .files
            .iter()
            .filter(|(name, _)| name.starts_with(&prefix) && name.ends_with(".toml"))
            .map(|(name, (_, clock))| (*clock, name.clone()))
            .collect();
        backups.sort_by(|left, right| right.cmp(left));
        Ok(backups.into_iter().map(|(_, name)| name).collect())
    }

    fn create_temp_exclusive(&self, path: &str) -> Result<Self::Pending, ConfigIoError> {
        self.record("create");
        if self.fault == Fault::Create {
            return Err(Self::error("create_staging_exclusive", path, IoErrorKind::PermissionDenied));
        }
        if self.fault == Fault::CreateCollision {
            self.write(path, b"foreign owner");
            return Err(Self::error("create_staging_exclusive", path, IoErrorKind::AlreadyExists));
        }
        if self.read(path).is_some() {
            return Err(Self::error("create_staging", path, IoErrorKind::AlreadyExists));
        }
        self.write(path, b"");
        Ok(Vec::new())
    }

    fn write_staging(&self, path: &str, pending: &mut Self::Pending, bytes: &[u8]) -> Result<(), ConfigIoError> {
        self.record("write");
        if self.fault == Fault::Write {
            return Err(Self::error("write_staging", path, IoErrorKind::PermissionDenied));
        }
        pending.extend_from_slice(bytes);
        Ok(())
    }

    fn flush_staging(&self, path: &str, _pending: &mut Self::Pending) -> Result<(), ConfigIoError> {
        self.record("flush");
        if self.fault == Fault::Flush {
            return Err(Self::error("flush_staging", path, IoErrorKind::PermissionDenied));
        }
        Ok(())
    }

    fn sync(&self, path: &str, _pending: &mut Self::Pending) -> Result<(), ConfigIoError> {
        self.record("sync");
        if self.fault == Fault::Sync {
            return Err(Self::error("sync_staging", path, IoErrorKind::PermissionDenied));
        }
        Ok(())
    }

    fn close(&self, path: &str, pending: Self::Pending) -> Result<(), ConfigIoError> {
        self.record("close");
        self.write(path, &pending);
        if self.fault == Fault::Close {
            return Err(Self::error("close_staging", path, IoErrorKind::PermissionDenied));
        }
        Ok(())
    }

    fn replace_with_backup(&self, target: &str, staging: &str, backup: &str) -> Result<(), ReplaceFileError> {
        self.record("replace");
        if matches!(self.fault, Fault::Replace | Fault::ReplaceAndCleanup) {
            return Err(ReplaceFileError {
                stage: "replace_file_with_backup".to_owned(),
                code: 5,
                kind: IoErrorKind::PermissionDenied,
                message: "simulated replacement failure".to_owned(),
                disposition: ReplacementDisposition::NamesUnchanged,
            });
        }
        self.rename(target, backup, "replace", true).expect("backup move");
        if matches!(self.fault, Fault::ReplaceThenRestoreFails | Fault::Replace1177) {
            return Err(ReplaceFileError {
                stage: "replace_file_with_backup".to_owned(),
                code: 1177,
                kind: IoErrorKind::Other("Other".to_owned()),
                message: "simulated replacement failure".to_owned(),
                disposition: ReplacementDisposition::OriginalAtBackup,
            });
        }
        self.rename(staging, target, "replace", true).expect("staging move");
        Ok(())
    }

    fn install_new_noreplace(&self, staging: &str, target: &str) -> Result<(), ConfigIoError> {
        self.record("install");
        if self.fault == Fault::InstallRace {
            self.write(target, b"external owner");
        }
        self.rename(staging, target, "install_new_noreplace", true)
    }

    fn restore_backup_noreplace(&self, backup: &str, target: &str) -> Result<(), ConfigIoError> {
        if self.fault == Fault::ReplaceThenRestoreFails {
            return Err(Self::error("restore_backup_noreplace", target, IoErrorKind::PermissionDenied));
        }
        self.rename(backup, target, "restore_backup_noreplace", true)
    }

    fn preserve_corrupt_noreplace(&self, source: &str, destination: &str) -> Result<(), ConfigIoError> {
        if self.fault == Fault::PreserveCorrupt {
            return Err(Self::error("preserve_corrupt_noreplace", destination, IoErrorKind::PermissionDenied));
        }
        self.rename(source, destination, "preserve_corrupt_noreplace", true)
    }

    fn remove_owned(&self, path: &str) -> Result<(), ConfigIoError> {
        self.record("cleanup");
        if self.fault == Fault::ReplaceAndCleanup {
            return Err(Self::error("cleanup_owned_file", path, IoErrorKind::PermissionDenied));
        }
        self.disk.borrow_mut().files.remove(path);
        Ok(())
    }
}

const DIRECTORY: &str = "/cfg";
const LIVE: &str = "/cfg/config.toml";

#[test]
fn missing_file_creates_defaults_and_updates_commit_one_revision() {
    let ops = MemoryOps::new(Fault::Plain);
    let mut service = ConfigService::load(DIRECTORY.to_owned(), ops.clone(), 7);
    let initial = service.snapshot();
    assert_eq!(initial.revision, 1);
    assert_eq!(initial.persistence, ConfigPersistence::Ready);
    assert_eq!(decode(&ops.read(LIVE).expect("live config")).expect("canonical config"), AppConfig::default());

    let ui = UiConfig { sidebar_collapsed: true, ..UiConfig::default() };
    let updated = service.update_ui(ui).expect("update UI");
    assert_eq!(updated.revision, 2);
    assert!(updated.config.ui.sidebar_collapsed);
    let restored = service.restore_defaults(ConfigGroup::Ui).expect("restore UI");
    assert_eq!(restored.revision, 3);
    assert_eq!(restored.config.ui, UiConfig::default());
    assert_eq!(service.snapshot(), restored);
}

#[test]
fn corrupt_input_is_preserved_and_future_input_remains_untouched_until_valid_import() {
    let corrupt_ops = MemoryOps::new(Fault::Plain);
    corrupt_ops.write(LIVE, b"not = [toml");
    let corrupt = ConfigService::load(DIRECTORY.to_owned(), corrupt_ops.clone(), 7).snapshot();
    assert_eq!(corrupt.persistence, ConfigPersistence::Ready);
    assert!(corrupt_ops.names().iter().any(|name| name.starts_with("/cfg/config.corrupt-")));
    assert!(corrupt.notices.iter().any(|notice| notice.code == ConfigNoticeCode::CorruptConfigPreserved));

    let ops = MemoryOps::new(Fault::Plain);
    let future_bytes = b"schemaVersion = 2\nfutureValue = 'keep'\n";
    ops.write(LIVE, future_bytes);
    let mut service = ConfigService::load(DIRECTORY.to_owned(), ops.clone(), 7);
    let future = service.snapshot();
    assert_eq!(future.persistence, ConfigPersistence::ReadOnly);
    assert_eq!(ops.read(LIVE).expect("future bytes"), future_bytes);
    assert!(service.update_ui(UiConfig::default()).is_err());

    ops.write("/imports/supported-import.toml", b"schemaVersion = 1\n");
    let imported = service
        .import(ConfigPathRequest { path: "/imports/supported-import.toml".to_owned() })
        .expect("explicit supported import");
    assert_eq!(imported.persistence, ConfigPersistence::Ready);
    assert_eq!(imported.revision, 2);
    assert_eq!(imported.config, AppConfig::default());
    assert!(imported.notices.iter().all(|notice| notice.code != ConfigNoticeCode::UnsupportedVersion));
    let backups = ops.list_owned_backups(DIRECTORY).expect("future backup");
    assert_eq!(backups.len(), 1);
    assert_eq!(ops.read(&backups[0]).expect("preserved future bytes"), future_bytes);
}

#[test]
fn whole_document_import_defaults_missing_fields_instead_of_merging() {
    let ops = MemoryOps::new(Fault::Plain);
    let mut service = ConfigService::load(DIRECTORY.to_owned(), ops.clone(), 7);
    let mut keymap = KeymapConfig::default();
    keymap.insert("shell.search".to_owned(), BindingOverride::Unbound);
    service.update_keymap(keymap).expect("seed current keymap");

    ops.write("/cfg/external-import.toml", b"schemaVersion = 1\n[ui]\nsidebarCollapsed = true\n");
    let imported = service
        .import(ConfigPathRequest { path: "/cfg/external-import.toml".to_owned() })
        .expect("import complete document");
    assert!(imported.config.ui.sidebar_collapsed);
    assert!(imported.config.keymap.is_empty());
    assert_eq!(imported.revision, 3);
}

#[test]
fn import_rejects_resolved_owned_aliases_and_unavailable_service_never_stages() {
    let ops = MemoryOps::new(Fault::Plain);
    let mut service = ConfigService::load(DIRECTORY.to_owned(), ops.clone(), 7);
    let error = service
        .import(ConfigPathRequest { path: "/cfg/./config.toml".to_owned() })
        .expect_err("resolved live alias must be rejected");
    assert_eq!(error.code, AppErrorCode::ConfigInvalidPath);
    assert_eq!(service.snapshot().revision, 1);

    let blank = service.import(ConfigPathRequest { path: "   ".to_owned() }).expect_err("blank path");
    assert_eq!(blank.code, AppErrorCode::ConfigInvalidPath);

    let unavailable_ops = MemoryOps::new(Fault::Plain);
    unavailable_ops.write("/imports/import.toml", b"schemaVersion = 1\n");
    let mut unavailable = ConfigService::unavailable("path unavailable".to_owned(), unavailable_ops.clone(), 7);
    let error = unavailable
        .import(ConfigPathRequest { path: "/imports/import.toml".to_owned() })
        .expect_err("unavailable service cannot import");
    assert_eq!(error.code, AppErrorCode::ConfigUnavailable);
    assert!(error.detail.as_deref().is_some_and(|detail| detail.contains("app_config_path=unavailable")));
    assert!(unavailable_ops.calls.borrow().is_empty());
    assert_eq!(unavailable.snapshot().persistence, ConfigPersistence::ReadOnly);
}

#[test]
fn failed_import_keeps_snapshot_revision_and_live_bytes_exact() {
    let ops = MemoryOps::new(Fault::Plain);
    let mut service = ConfigService::load(DIRECTORY.to_owned(), ops.clone(), 7);
    let before_snapshot = service.snapshot();
    let before_bytes = ops.read(LIVE).expect("before bytes");
    ops.write("/cfg/invalid-import.toml", b"schemaVersion = 1\n[ui]\ntheme = 'invalid'\n");

    let error = service
        .import(ConfigPathRequest { path: "/cfg/invalid-import.toml".to_owned() })
        .expect_err("invalid import must fail");
    assert!(!error.detail.as_deref().unwrap_or_default().contains("invalid"));
    assert_eq!(service.snapshot(), before_snapshot);
    assert_eq!(ops.read(LIVE).expect("after bytes"), before_bytes);
}

#[test]
fn export_contains_only_canonical_config() {
    let ops = MemoryOps::new(Fault::Plain);
    let mut service = ConfigService::load(DIRECTORY.to_owned(), ops.clone(), 7);
    let result = service
        .export(ConfigPathRequest { path: "/exports/settings.toml".to_owned() })
        .expect("export config");
    let text = String::from_utf8(ops.read("/exports/settings.toml").expect("exported TOML")).expect("UTF-8");
    assert_eq!(result.bytes_written as usize, text.len());
    assert_eq!(result.path, "/exports/settings.toml");
    assert!(text.contains("schemaVersion = 1"));
    assert!(!text.contains("revision"));
    assert!(!text.contains("notices"));
    assert_eq!(service.snapshot().revision, 1);
}

#[test]
fn invalid_update_rolls_back_snapshot_revision_and_live_bytes() {
    let ops = MemoryOps::new(Fault::Plain);
    let mut service = ConfigService::load(DIRECTORY.to_owned(), ops.clone(), 7);
    let before_snapshot = service.snapshot();
    let before_bytes = ops.read(LIVE).expect("before bytes");
    let mut window = before_snapshot.config.window;
    window.bounds = Some(WindowBounds { x: 0, y: 0, width: 0, height: 600, scale_factor_bits: 1.0f64.to_bits() });

    let error = service.update_window(window).expect_err("invalid window");
    assert_eq!(error.code, AppErrorCode::ConfigValidationFailed);
    assert_eq!(service.snapshot(), before_snapshot);
    assert_eq!(ops.read(LIVE).expect("after bytes"), before_bytes);
}

#[test]
fn sequential_group_updates_keep_every_field() {
    let ops = MemoryOps::new(Fault::Plain);
    let mut service = ConfigService::load(DIRECTORY.to_owned(), ops, 7);
    service.update_ui(UiConfig { sidebar_collapsed: true, ..UiConfig::default() }).expect("UI update");
    service.update_window(WindowConfig { maximized: true, ..WindowConfig::default() }).expect("window update");
    let snapshot = service.snapshot();
    assert_eq!(snapshot.revision, 3);
    assert!(snapshot.config.ui.sidebar_collapsed);
    assert!(snapshot.config.window.maximized);
}

#[test]
fn sync_failure_closes_and_cleans_owned_staging_before_rollback() {
    let ops = MemoryOps::new(Fault::Plain);
    let before = ConfigService::load(DIRECTORY.to_owned(), ops.clone(), 7).snapshot();
    let before_bytes = ops.read(LIVE).expect("initial bytes");
    let mut service = ConfigService::load(DIRECTORY.to_owned(), ops.with_disk(Fault::Sync), 7);
    assert!(service.update_ui(UiConfig { sidebar_collapsed: true, ..UiConfig::default() }).is_err());
    assert_eq!(service.snapshot(), before);
    assert_eq!(ops.read(LIVE).expect("live bytes"), before_bytes);
    assert!(ops.names().iter().all(|name| !name.starts_with("/cfg/config.tmp-")));
}

#[test]
fn failed_1177_restore_retains_last_valid_backup_and_enters_read_only() {
    let ops = MemoryOps::new(Fault::Plain);
    let before = ConfigService::load(DIRECTORY.to_owned(), ops.clone(), 7).snapshot();
    let before_bytes = ops.read(LIVE).expect("initial bytes");
    let mut service = ConfigService::load(DIRECTORY.to_owned(), ops.with_disk(Fault::ReplaceThenRestoreFails), 7);
    let error = service
        .update_ui(UiConfig { sidebar_collapsed: true, ..UiConfig::default() })
        .expect_err("restore failure must fail the commit");
    let after = service.snapshot();
    assert_eq!(after.revision, before.revision);
    assert_eq!(after.config, before.config);
    assert_eq!(after.persistence, ConfigPersistence::ReadOnly);
    assert!(ops.read(LIVE).is_none());
    let backups = ops.list_owned_backups(DIRECTORY).expect("owned backups");
    assert_eq!(backups.len(), 1);
    assert_eq!(ops.read(&backups[0]).expect("backup bytes"), before_bytes);
    let detail = error.detail.expect("combined error evidence");
    assert!(detail.contains("code=1177"));
    assert!(detail.contains("target="));
    assert!(detail.contains("staging="));
    assert!(detail.contains("backup="));
    assert!(detail.contains("restore=stage=restore_backup_noreplace"));
    assert_eq!(
        after
            .notices
            .iter()
            .find(|notice| notice.code == ConfigNoticeCode::ReplacementRecoveryFailed)
            .and_then(|notice| notice.detail.as_deref()),
        Some(detail.as_str())
    );
    assert!(service.update_ui(UiConfig::default()).is_err());
}

#[test]
fn corrupt_preservation_failure_keeps_source_untouched_and_read_only() {
    let ops = MemoryOps::new(Fault::PreserveCorrupt);
    let corrupt = b"not = [toml";
    ops.write(LIVE, corrupt);
    let snapshot = ConfigService::load(DIRECTORY.to_owned(), ops.clone(), 7).snapshot();
    assert_eq!(snapshot.persistence, ConfigPersistence::ReadOnly);
    assert_eq!(ops.read(LIVE).expect("source bytes"), corrupt);
    assert!(ops.names().iter().all(|name| !name.starts_with("/cfg/config.corrupt-")));
}

#[test]
fn startup_restores_the_newest_valid_owned_backup_without_clobber() {
    let ops = MemoryOps::new(Fault::Plain);
    let mut config = AppConfig::default();
    config.ui.sidebar_collapsed = true;
    let bytes = encode(&config).expect("canonical config");
    ops.write("/cfg/config.backup-test.toml", &bytes);

    let snapshot = ConfigService::load(DIRECTORY.to_owned(), ops.clone(), 7).snapshot();
    assert_eq!(snapshot.config, config);
    assert_eq!(snapshot.persistence, ConfigPersistence::Ready);
    assert_eq!(ops.read(LIVE).expect("live"), bytes);
    assert!(ops.read("/cfg/config.backup-test.toml").is_none());
    assert!(snapshot.notices.iter().any(|notice| notice.code == ConfigNoticeCode::BackupRecovered));
}

#[test]
fn backup_discovery_or_read_failure_never_installs_defaults_over_recovery_state() {
    for fault in [Fault::ListBackups, Fault::ReadBackup] {
        let ops = MemoryOps::new(fault);
        if fault == Fault::ReadBackup {
            ops.write("/cfg/config.backup-test.toml", &encode(&AppConfig::default()).expect("backup bytes"));
        }
        let snapshot = ConfigService::load(DIRECTORY.to_owned(), ops.clone(), 7).snapshot();
        assert_eq!(snapshot.persistence, ConfigPersistence::ReadOnly);
        assert!(ops.read(LIVE).is_none());
        let stage = if fault == Fault::ListBackups { "list_config_backups" } else { "read_owned_backup" };
        assert!(snapshot.notices.iter().any(|notice| notice.code == ConfigNoticeCode::PersistenceUnavailable
            && notice.detail.as_deref().is_some_and(|detail| detail.contains(stage))));
    }
}

fn loaded_with(fault: Fault) -> (MemoryOps, ConfigService<MemoryOps>, wubilex::config::snapshot::ConfigSnapshot, Vec<u8>) {
    let ops = MemoryOps::new(Fault::Plain);
    let before = ConfigService::load(DIRECTORY.to_owned(), ops.clone(), 7).snapshot();
    let before_bytes = ops.read(LIVE).expect("initial bytes");
    let faulty = ops.with_disk(fault);
    let service = ConfigService::load(DIRECTORY.to_owned(), faulty.clone(), 8);
    (faulty, service, before, before_bytes)
}

fn owned_staging_left(ops: &MemoryOps) -> bool {
    ops.names().iter().any(|name| name.starts_with("/cfg/config.tmp-"))
}

#[test]
fn native_1177_topology_restores_old_target_and_keeps_snapshot_exact() {
    let (ops, mut service, before, before_bytes) = loaded_with(Fault::Replace1177);
    assert!(service.update_ui(UiConfig { sidebar_collapsed: true, ..UiConfig::default() }).is_err());
    assert_eq!(service.snapshot(), before);
    assert_eq!(ops.read(LIVE).expect("restored bytes"), before_bytes);
}

#[test]
fn staged_failures_preserve_snapshot_live_bytes_and_cleanup_after_close() {
    for fault in [
        Fault::Create,
        Fault::Write,
        Fault::Flush,
        Fault::Sync,
        Fault::Close,
        Fault::InspectTarget,
        Fault::SelectBackup,
        Fault::Replace,
    ] {
        let (ops, mut service, before, before_bytes) = loaded_with(fault);
        let result = service.update_ui(UiConfig { sidebar_collapsed: true, ..UiConfig::default() });
        assert!(result.is_err(), "{fault:?} must fail");
        assert_eq!(service.snapshot(), before, "{fault:?} changed memory state");
        assert_eq!(ops.read(LIVE).expect("live bytes"), before_bytes, "{fault:?} changed the last-valid file");
        assert!(!owned_staging_left(&ops), "{fault:?} left an owned staging file");
        if matches!(fault, Fault::Write | Fault::Flush | Fault::Sync | Fault::Close) {
            let calls = ops.calls.borrow();
            let close = calls.iter().position(|call| *call == "close").expect("close stage");
            let cleanup = calls.iter().position(|call| *call == "cleanup").expect("cleanup stage");
            assert!(close < cleanup, "{fault:?} cleaned before closing");
        }
    }
}

#[test]
fn cleanup_failure_retains_primary_and_secondary_evidence() {
    let (ops, mut service, before, before_bytes) = loaded_with(Fault::ReplaceAndCleanup);
    let error = service
        .update_ui(UiConfig { sidebar_collapsed: true, ..UiConfig::default() })
        .expect_err("replace and cleanup must fail");
    let detail = error.detail.expect("combined error detail");
    assert!(detail.contains("stage=replace_file_with_backup"));
    assert!(detail.contains("cleanup=stage=cleanup_owned_file"));
    assert_eq!(service.snapshot(), before);
    assert_eq!(ops.read(LIVE).expect("live bytes"), before_bytes);
    assert!(owned_staging_left(&ops), "failed owned cleanup must retain the staging evidence");
}

#[test]
fn create_collisions_are_never_adopted_or_cleaned() {
    let (ops, mut service, before, _) = loaded_with(Fault::CreateCollision);
    let error = service
        .update_ui(UiConfig { sidebar_collapsed: true, ..UiConfig::default() })
        .expect_err("bounded collisions must fail");
    assert!(error.detail.as_deref().is_some_and(|detail| detail.contains("attempts=16")));
    assert_eq!(service.snapshot(), before);
    let collisions: Vec<String> =
        ops.names().into_iter().filter(|name| name.starts_with("/cfg/config.tmp-")).collect();
    assert_eq!(collisions.len(), UNIQUE_PATH_ATTEMPTS);
    for collision in collisions {
        assert_eq!(ops.read(&collision).expect("foreign collision bytes"), b"foreign owner");
    }
}

#[test]
fn initial_install_never_clobbers_a_concurrently_created_target() {
    let ops = MemoryOps::new(Fault::InstallRace);
    let bytes = encode(&AppConfig::default()).expect("canonical config");
    let mut names = PathSequence { process_id: 7, next: 0 };
    let mut files = Recorded::new(&ops);
    let failure = persist_bytes(&mut files, &mut names, DIRECTORY, "/cfg/new-config.toml", &bytes, "config.backup")
        .expect_err("concurrent target must win");
    assert_eq!(names.process_id, 7);
    assert_eq!(names.next, 1);
    assert_eq!(ops.read("/cfg/new-config.toml").expect("concurrent target"), b"external owner");
    assert!(failure.error.detail.as_deref().is_some_and(|detail| detail.contains("install_new_noreplace")));
    assert!(!owned_staging_left(&ops));
}

#[test]
fn owned_aliases_are_judged_on_resolved_paths() {
    assert!(is_owned_alias("/cfg", "/cfg/config.toml"));
    assert!(is_owned_alias("/cfg", "/cfg/CONFIG.TOML"));
    assert!(is_owned_alias("/CFG", "/cfg/config.backup-1.toml"));
    assert!(is_owned_alias("/cfg", "/cfg/config.tmp-7-0.toml"));
    assert!(!is_owned_alias("/cfg", "/cfg/settings.toml"));
    assert!(!is_owned_alias("/cfg", "/elsewhere/config.toml"));
    assert!(!is_owned_alias("/cfg", "/"));
}

#[test]
fn blank_export_paths_are_refused_before_any_file_work() {
    let ops = MemoryOps::new(Fault::Plain);
    let mut service = ConfigService::load(DIRECTORY.to_owned(), ops, 7);
    let error = service.export(ConfigPathRequest { path: "  ".to_owned() }).expect_err("blank export path");
    assert_eq!(error.code, AppErrorCode::ConfigInvalidPath);
    assert_eq!(error.detail.as_deref(), Some("stage=validate_config_path"));
}

#[test]
fn relative_import_and_export_paths_are_refused() {
    let ops = MemoryOps::new(Fault::Plain);
    let mut service = ConfigService::load(DIRECTORY.to_owned(), ops.clone(), 7);
    ops.write("imports/relative.toml", b"schemaVersion = 1\n");
    let import = service
        .import(ConfigPathRequest { path: "imports/relative.toml".to_owned() })
        .expect_err("relative import path");
    assert_eq!(import.code, AppErrorCode::ConfigInvalidPath);
    assert_eq!(import.message, "配置文件路径必须是非空绝对路径。");
    let export = service
        .export(ConfigPathRequest { path: "settings.toml".to_owned() })
        .expect_err("relative export path");
    assert_eq!(export.code, AppErrorCode::ConfigInvalidPath);
    assert_eq!(export.message, "配置文件路径必须是非空绝对路径。");
    assert!(ops.read("settings.toml").is_none());
    assert_eq!(service.snapshot().revision, 1);
}

#[test]
fn directories_are_refused_as_import_sources_and_export_targets() {
    let ops = MemoryOps::new(Fault::Plain);
    let mut service = ConfigService::load(DIRECTORY.to_owned(), ops.clone(), 7);
    ops.create_dir_all("/imports").expect("directory");
    let import = service
        .import(ConfigPathRequest { path: "/imports".to_owned() })
        .expect_err("directory import source");
    assert_eq!(import.code, AppErrorCode::ConfigInvalidPath);
    assert_eq!(import.message, "导入来源不能是目录。");
    let export = service
        .export(ConfigPathRequest { path: "/imports".to_owned() })
        .expect_err("directory export target");
    assert_eq!(export.code, AppErrorCode::ConfigInvalidPath);
    assert_eq!(export.message, "导出目标不能是目录。");
    assert_eq!(service.snapshot().revision, 1);
}

#[test]
fn unreadable_import_source_is_reported_and_changes_nothing() {
    let ops = MemoryOps::new(Fault::Plain);
    let mut service = ConfigService::load(DIRECTORY.to_owned(), ops.clone(), 7);
    let before = service.snapshot();
    let error = service
        .import(ConfigPathRequest { path: "/imports/missing.toml".to_owned() })
        .expect_err("missing import source");
    assert_eq!(error.code, AppErrorCode::ConfigImportFailed);
    assert_eq!(error.message, "无法读取导入配置。");
    assert_eq!(service.snapshot(), before);
}

#[test]
fn export_to_an_owned_file_is_refused() {
    let ops = MemoryOps::new(Fault::Plain);
    let mut service = ConfigService::load(DIRECTORY.to_owned(), ops.clone(), 7);
    let before = ops.read(LIVE).expect("live bytes");
    let error = service
        .export(ConfigPathRequest { path: "/cfg/CONFIG.TOML".to_owned() })
        .expect_err("owned export target");
    assert_eq!(error.code, AppErrorCode::ConfigInvalidPath);
    assert_eq!(error.message, "该路径属于应用配置事务，不能用于导入或导出。");
    assert_eq!(ops.read(LIVE).expect("live bytes"), before);
}
