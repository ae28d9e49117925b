use wubilex::config::codec::MAX_CONFIG_BYTES;
use wubilex::config::native::{check_read_length, order_owned_backups, BackupEntry};
use wubilex::error::IoErrorKind;

fn entry(name: &str, modified: i128) -> BackupEntry {
    BackupEntry { name: name.to_owned(), path: format!("C:/cfg/{name}"), modified }
}

#[test]
fn owned_backups_are_tried_newest_first_with_later_names_first_on_ties() {
    let entries = vec![
        entry("config.backup-1.toml", 10),
        entry("config.toml", 20),
        entry("config.backup-2.toml", 30),
        entry("config.backup-3.toml", 10),
        entry("config.backup-4.txt", 40),
        entry("notes.backup-5.toml", 50),
        entry("config.backup-0.toml", -5),
    ];
    assert_eq!(
        order_owned_backups(&entries),
        vec![
            "C:/cfg/config.backup-2.toml".to_owned(),
            "C:/cfg/config.backup-3.toml".to_owned(),
            "C:/cfg/config.backup-1.toml".to_owned(),
            "C:/cfg/config.backup-0.toml".to_owned(),
        ]
    );
}

#[test]
fn a_directory_without_owned_backups_lists_nothing() {
    assert!(order_owned_backups(&vec![entry("config.toml", 1), entry("config.tmp-1-0.toml", 2)]).is_empty());
    assert!(order_owned_backups(&Vec::new()).is_empty());
}

#[test]
fn reads_beyond_the_codec_limit_are_refused() {
    assert_eq!(check_read_length("C:/cfg/config.toml", MAX_CONFIG_BYTES), Ok(()));
    assert_eq!(check_read_length("C:/cfg/config.toml", 0), Ok(()));
    let error = check_read_length("C:/cfg/config.toml", MAX_CONFIG_BYTES + 1).unwrap_err();
    assert_eq!(error.stage, "read_config_limit");
    assert_eq!(error.path, "C:/cfg/config.toml");
    assert_eq!(error.kind, IoErrorKind::InvalidData);
    assert_eq!(error.code, 0);
    assert_eq!(error.message, "configuration exceeds 1048576 bytes");
}
