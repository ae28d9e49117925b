use wubilex::error::IoErrorKind;
use wubilex::config::model::{AppLocale, Density, ThemePreference, UiConfig};
use wubilex::logging::{days_from_civil, days_in_month, is_application_event, owned_log_day, should_prune, unix_day, LoggingError};
use wubilex::recovery::{count_owned_markers, is_owned_marker_name, marker_file_name, validate_session_id, SessionLifecycle, SessionMarker};
use wubilex::ui_bootstrap::{NativeTheme, UiBootstrap};

#[test]
fn ownership_filter_accepts_only_daily_json_log_names() {
    assert!(owned_log_day("wubilex.2026-08-26.jsonl").is_some());
    for name in [
        "other.2026-08-26.jsonl",
        "wubilex.latest.jsonl",
        "wubilex.2026-02-30.jsonl",
        "wubilex.2026-08-26.log",
        "wubilex.20260826.jsonl",
    ] {
        assert!(owned_log_day(name).is_none());
    }
}

#[test]
fn pruning_keeps_the_last_seven_days_of_owned_logs() {
    let today = days_from_civil(2026, 8, 26);
    assert!(should_prune("wubilex.2026-08-18.jsonl", today));
    assert!(!should_prune("wubilex.2026-08-19.jsonl", today));
    assert!(!should_prune("notes.jsonl", today));
    assert_eq!(unix_day(today as u64 * 86_400 + 5), today);
}

#[test]
fn civil_calendar_matches_known_dates() {
    assert_eq!(days_from_civil(1970, 1, 1), 0);
    assert_eq!(days_from_civil(2000, 3, 1), 11_017);
    assert_eq!(days_from_civil(1969, 12, 31), -1);
    assert_eq!(days_in_month(2024, 2), 29);
    assert_eq!(days_in_month(1900, 2), 28);
    assert_eq!(days_in_month(2000, 2), 29);
    assert_eq!(days_in_month(2026, 13), 0);
    assert!(is_application_event("wubilex_app"));
    assert!(is_application_event("wubilex_app::config"));
    assert!(!is_application_event("tauri::app"));
    let error = LoggingError::new("create_directory", "denied".to_owned());
    assert_eq!(error.stage(), "create_directory");
    assert_eq!(error.message(), "logging stage create_directory failed: denied");
}

#[test]
fn rejects_session_ids_that_could_escape_the_owned_directory() {
    for id in ["", "../outside", "has space", "slash/name"] {
        assert!(validate_session_id(id).is_err());
    }
    assert!(validate_session_id(&"a".repeat(64)).is_ok());
    assert!(validate_session_id(&"a".repeat(65)).is_err());
    assert!(validate_session_id("1a2b-3C").is_ok());
}

#[test]
fn only_owned_marker_names_count_as_previous_sessions() {
    assert_eq!(marker_file_name("current"), "wubilex-session-current.json");
    assert!(is_owned_marker_name("wubilex-session-stale.json"));
    assert!(!is_owned_marker_name("wubilex-session-.json"));
    assert!(!is_owned_marker_name("wubilex-session-a b.json"));
    let names = vec![
        "wubilex-session-stale.json".to_owned(),
        "wubilex-session-.json".to_owned(),
        "notes.txt".to_owned(),
    ];
    assert_eq!(count_owned_markers(&names), 1);

    let marker = SessionMarker::new("/tmp/wubilex-session-a.json".to_owned(), 1);
    assert_eq!(marker.previous_abnormal_session_count(), 1);
    assert_eq!(marker.path(), "/tmp/wubilex-session-a.json");
    let mut lifecycle = SessionLifecycle::new(Some(marker));
    assert_eq!(lifecycle.clean_exit(Err(IoErrorKind::PermissionDenied)), Err(IoErrorKind::PermissionDenied));
    assert!(lifecycle.marker_path().is_some());
    assert_eq!(lifecycle.clean_exit(Ok(())), Ok(()));
    assert!(lifecycle.marker_path().is_none());
    assert_eq!(lifecycle.clean_exit(Err(IoErrorKind::PermissionDenied)), Ok(()));
    assert!(lifecycle.marker_path().is_none());
}

#[test]
fn a_marker_already_gone_counts_as_removed() {
    let marker = SessionMarker::new("/tmp/wubilex-session-b.json".to_owned(), 0);
    let mut lifecycle = SessionLifecycle::new(Some(marker));
    assert_eq!(lifecycle.clean_exit(Err(IoErrorKind::NotFound)), Ok(()));
    assert!(lifecycle.marker_path().is_none());
    let mut without = SessionLifecycle::new(None);
    assert_eq!(without.clean_exit(Ok(())), Ok(()));
    assert!(without.marker_path().is_none());
}

fn ui(theme: ThemePreference, density: Density) -> UiConfig {
    UiConfig { theme, density, locale: AppLocale::ZhCn, sidebar_collapsed: true, onboarding_version: u32::MAX }
}

#[test]
fn default_projection_is_system_standard_simplified_chinese() {
    let bootstrap = UiBootstrap::from_config(&UiConfig::default());
    assert!(bootstrap.script().contains("preference=\"system\""));
    assert!(bootstrap.script().contains("density=\"standard\""));
    assert!(bootstrap.script().contains("locale=\"zh-CN\""));
    assert_eq!(bootstrap.native_theme, None);
    assert_eq!(bootstrap.background, None);
}

#[test]
fn every_theme_and_density_use_only_closed_literals() {
    for (theme, literal, native, background) in [
        (ThemePreference::System, "system", None, None),
        (ThemePreference::Light, "light", Some(NativeTheme::Light), Some((255, 255, 255, 255))),
        (ThemePreference::Dark, "dark", Some(NativeTheme::Dark), Some((22, 25, 29, 255))),
    ] {
        for (density, density_literal) in [(Density::Standard, "standard"), (Density::Compact, "compact")] {
            let bootstrap = UiBootstrap::from_config(&ui(theme, density));
            assert!(bootstrap.script().contains(&format!("preference=\"{literal}\"")));
            assert!(bootstrap.script().contains(&format!("density=\"{density_literal}\"")));
            assert_eq!(bootstrap.native_theme, native);
            assert_eq!(bootstrap.background, background);
            assert!(!bootstrap.script().contains("4294967295"));
            assert!(!bootstrap.script().contains("sidebar"));
        }
    }
}

#[test]
fn script_guards_subframes_and_handles_a_missing_document_element() {
    let script = UiBootstrap::from_config(&UiConfig::default()).script;
    assert!(script.contains("window.top!==window.self"));
    assert!(script.contains("if(!root){return false;}"));
    assert!(script.contains("new MutationObserver"));
    assert!(script.contains("observer.disconnect()"));
    assert!(script.contains("classList.toggle(\"dark\",dark)"));
    assert!(script.contains("prefers-color-scheme: dark"));
    assert!(script.contains("data-theme"));
    assert!(script.contains("data-density"));
    assert!(script.contains("colorScheme"));
}
