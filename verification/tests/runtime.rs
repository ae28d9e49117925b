use wubilex::error::{AppError, AppErrorCode, AppErrorKind};
use wubilex::events::LaunchRequestedEvent;
use wubilex::launch::LaunchRequest;
use wubilex::runtime::{
    NativeSecurityError, PrivilegeFailure, PrivilegeState, PrivilegeStatus, RuntimeNotice, RuntimeNoticeCode,
    RuntimeSnapshot, RuntimeState, MAX_RUNTIME_NOTICES,
};

fn launch(path: Option<&str>) -> LaunchRequestedEvent {
    LaunchRequestedEvent {
        request: LaunchRequest { start_hidden: false, navigation_path: path.map(str::to_owned) },
        notices: Vec::new(),
    }
}

fn state() -> RuntimeState {
    RuntimeState::new(RuntimeSnapshot::new(
        PrivilegeStatus { state: PrivilegeState::Elevated, failure: None },
        0,
        launch(None),
        Vec::new(),
    ))
}

#[test]
fn secondary_launch_updates_the_authoritative_snapshot() {
    let mut state = state();
    state.record_secondary_launch(launch(Some("/settings/runtime")));
    assert_eq!(
        state.snapshot().latest_secondary_launch.and_then(|launch| launch.request.navigation_path),
        Some("/settings/runtime".to_owned())
    );
}

#[test]
fn startup_initialization_preserves_an_early_secondary_launch() {
    let mut state = state();
    state.record_secondary_launch(launch(Some("/settings/runtime")));
    state.initialize(RuntimeSnapshot::new(
        PrivilegeStatus { state: PrivilegeState::NotElevated, failure: None },
        2,
        launch(None),
        Vec::new(),
    ));

    let snapshot = state.snapshot();
    assert_eq!(snapshot.privilege.state, PrivilegeState::NotElevated);
    assert_eq!(snapshot.previous_abnormal_session_count, 2);
    assert_eq!(
        snapshot.latest_secondary_launch.and_then(|launch| launch.request.navigation_path),
        Some("/settings/runtime".to_owned())
    );
}

#[test]
fn activation_waits_for_the_window_and_can_be_retried() {
    let mut state = state();
    state.record_secondary_launch(launch(None));
    assert!(!state.take_activation_request());
    assert!(state.mark_window_ready());
    assert!(!state.take_activation_request());

    state.restore_activation_request();
    assert!(state.take_activation_request());
}

#[test]
fn privilege_projection_distinguishes_actual_state_and_native_failure() {
    assert_eq!(PrivilegeStatus::from_probe(Ok(true)).state, PrivilegeState::Elevated);
    assert_eq!(PrivilegeStatus::from_probe(Ok(false)).state, PrivilegeState::NotElevated);

    let unavailable = PrivilegeStatus::from_probe(Err(NativeSecurityError {
        stage: "OpenProcessToken".to_owned(),
        code: 5,
        message: "access denied".to_owned(),
    }));
    assert_eq!(unavailable.state, PrivilegeState::Unavailable);
    assert_eq!(unavailable.failure, Some(PrivilegeFailure { stage: "OpenProcessToken".to_owned(), code: 5 }));
}

#[test]
fn notice_count_is_bounded() {
    let mut state = state();
    for index in 0..16 {
        state.push_notice(RuntimeNotice {
            code: RuntimeNoticeCode::WindowOperationFailed,
            summary: "窗口操作失败。".to_owned(),
            detail: Some(format!("stage={index}")),
        });
    }
    assert_eq!(state.snapshot().notices.len(), MAX_RUNTIME_NOTICES);
}

#[test]
fn identical_runtime_notices_are_deduplicated() {
    let mut state = state();
    assert!(state.push_notice(RuntimeNotice::window_activation_failed()));
    assert!(!state.push_notice(RuntimeNotice::window_activation_failed()));
    assert_eq!(state.snapshot().notices.len(), 1);
}

#[test]
fn notice_detail_names_the_failed_stage() {
    let notice = RuntimeNotice::window_operation_failed("hide_window");
    assert_eq!(notice.code, RuntimeNoticeCode::WindowOperationFailed);
    assert_eq!(notice.detail.as_deref(), Some("失败阶段：hide_window。"));
}

#[test]
fn every_runtime_notice_carries_its_code_summary_and_stage() {
    let logging = RuntimeNotice::logging_unavailable("create_appender");
    assert_eq!(logging.code, RuntimeNoticeCode::LoggingUnavailable);
    assert_eq!(logging.summary, "日志服务未能启动，应用将继续运行。");
    assert_eq!(logging.detail.as_deref(), Some("失败阶段：create_appender。"));

    let marker = RuntimeNotice::session_marker_unavailable(&wubilex::error::IoErrorKind::PermissionDenied);
    assert_eq!(marker.code, RuntimeNoticeCode::SessionMarkerUnavailable);
    assert_eq!(marker.detail.as_deref(), Some("错误类型：PermissionDenied。"));

    let probe = RuntimeNotice::elevation_probe_failed(&PrivilegeFailure { stage: "open_token".to_owned(), code: 5 });
    assert_eq!(probe.code, RuntimeNoticeCode::ElevationProbeFailed);
    assert_eq!(probe.detail.as_deref(), Some("失败阶段：open_token；系统代码：5。"));

    let persistence = RuntimeNotice::window_persistence_failed("read_close_action");
    assert_eq!(persistence.code, RuntimeNoticeCode::WindowPersistenceFailed);
    assert_eq!(persistence.detail.as_deref(), Some("失败阶段：read_close_action。"));

    let tray = RuntimeNotice::tray_unavailable("delay_thread_start");
    assert_eq!(tray.code, RuntimeNoticeCode::TrayUnavailable);
    assert_eq!(tray.summary, "系统托盘入口不可用，主窗口已保持可见。");
}

#[test]
fn configuration_task_and_lock_errors_are_recoverable_state_failures() {
    let joined = AppError::task_join("config_update", "worker stopped");
    assert_eq!(joined.code, AppErrorCode::ConfigStateFailed);
    assert_eq!(joined.kind, AppErrorKind::System);
    assert_eq!(joined.detail.as_deref(), Some("stage=config_update; error=worker stopped"));
    assert!(joined.recoverable);
    let locked = wubilex::config::snapshot::state_lock_error();
    assert_eq!(locked.code, AppErrorCode::ConfigStateFailed);
    assert_eq!(locked.detail.as_deref(), Some("stage=config_state_lock; poisoned=true"));
}
