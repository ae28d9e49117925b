//! Authoritative process-runtime state exposed to the initial webview.
use vstd::prelude::*;
use crate::error::{IoErrorKind, io_kind_name, opt_view};
use crate::events::LaunchRequestedEvent;
use crate::launch::{NoticeModel, RequestModel};
use crate::text::{decimal, decimal_string};

verus! {

/// Most runtime notices kept in a snapshot.
pub const MAX_RUNTIME_NOTICES: usize = 8;

/// Actual privilege state of the running process token.
#[derive(Clone, Copy, Debug, PartialEq, Eq, Structural)]
pub enum PrivilegeState {
    Elevated,
    NotElevated,
    Unavailable,
}

/// Bounded native evidence for a failed privilege probe.
#[derive(Debug, PartialEq, Eq)]
pub struct PrivilegeFailure {
    pub stage: String,
    pub code: u32,
}

impl View for PrivilegeFailure {
    type V = (Seq<char>, u32);

    open spec fn view(&self) -> (Seq<char>, u32) {
        (self.stage@, self.code)
    }
}

impl Clone for PrivilegeFailure {
    fn clone(&self) -> (copy: Self)
        ensures
            copy@ == self@,
    {
        PrivilegeFailure { stage: self.stage.clone(), code: self.code }
    }
}

/// Privilege probe outcome shown by the shell.
#[derive(Debug, PartialEq, Eq)]
pub struct PrivilegeStatus {
    pub state: PrivilegeState,
    pub failure: Option<PrivilegeFailure>,
}

/// Mathematical form of a privilege status.
pub struct PrivilegeModel {
    pub state: PrivilegeState,
    pub failure: Option<(Seq<char>, u32)>,
}

impl View for PrivilegeStatus {
    type V = PrivilegeModel;

    open spec fn view(&self) -> PrivilegeModel {
        PrivilegeModel {
            state: self.state,
            failure: match self.failure {
                Some(f) => Some(f@),
                None => None,
            },
        }
    }
}

impl Clone for PrivilegeStatus {
    fn clone(&self) -> (copy: Self)
        ensures
            copy@ == self@,
    {
        let failure = match &self.failure {
            Some(f) => Some(f.clone()),
            None => None,
        };
        PrivilegeStatus { state: self.state, failure }
    }
}

/// A failed native privilege query: the stage that failed and its system code.
#[derive(Clone, Debug)]
pub struct NativeSecurityError {
    pub stage: String,
    pub code: u32,
    pub message: String,
}

impl PrivilegeStatus {
    /// Projects the result of the elevation probe.
    pub fn from_probe(result: Result<bool, NativeSecurityError>) -> (status: Self)
        ensures
            match result {
                Ok(true) => status.state == PrivilegeState::Elevated && status.failure is None,
                Ok(false) => status.state == PrivilegeState::NotElevated && status.failure is None,
                Err(error) => {
                    &&& status.state == PrivilegeState::Unavailable
                    &&& status.failure matches Some(f)
                    &&& f.stage@ == error.stage@
                    &&& f.code == error.code
                },
            },
    {
        match result {
            Ok(true) => PrivilegeStatus { state: PrivilegeState::Elevated, failure: None },
            Ok(false) => PrivilegeStatus { state: PrivilegeState::NotElevated, failure: None },
            Err(error) => PrivilegeStatus {
                state: PrivilegeState::Unavailable,
                failure: Some(PrivilegeFailure { stage: error.stage, code: error.code }),
            },
        }
    }
}

/// Stable categories for non-launch runtime warnings.
#[derive(Clone, Copy, Debug, PartialEq, Eq, Structural)]
pub enum RuntimeNoticeCode {
    LoggingUnavailable,
    SessionMarkerUnavailable,
    ElevationProbeFailed,
    WindowActivationFailed,
    WindowOperationFailed,
    WindowPersistenceFailed,
    TrayUnavailable,
}

/// A bounded warning safe to render in the status view.
#[derive(Debug, PartialEq, Eq)]
pub struct RuntimeNotice {
    pub code: RuntimeNoticeCode,
    pub summary: String,
    pub detail: Option<String>,
}

/// Mathematical form of a runtime notice.
pub struct RuntimeNoticeModel {
    pub code: RuntimeNoticeCode,
    pub summary: Seq<char>,
    pub detail: Option<Seq<char>>,
}

impl View for RuntimeNotice {
    type V = RuntimeNoticeModel;

    open spec fn view(&self) -> RuntimeNoticeModel {
        RuntimeNoticeModel { code: self.code, summary: self.summary@, detail: opt_view(self.detail) }
    }
}

impl Clone for RuntimeNotice {
    fn clone(&self) -> (copy: Self)
        ensures
            copy@ == self@,
    {
        RuntimeNotice { code: self.code, summary: self.summary.clone(), detail: self.detail.clone() }
    }
}

/// Models of a list of runtime notices.
pub open spec fn runtime_notice_models(notices: Seq<RuntimeNotice>) -> Seq<RuntimeNoticeModel> {
    notices.map_values(|n: RuntimeNotice| n@)
}

/// Whether a notice carries exactly this code, summary and detail.
pub open spec fn notice_is(
    notice: RuntimeNotice,
    code: RuntimeNoticeCode,
    summary: Seq<char>,
    detail: Option<Seq<char>>,
) -> bool {
    notice.code == code && notice.summary@ == summary && opt_view(notice.detail) == detail
}

/// `失败阶段：{stage}。`
pub open spec fn stage_detail(stage: Seq<char>) -> Seq<char> {
    "失败阶段："@ + stage + "。"@
}

fn stage_detail_text(stage: &str) -> (text: String)
    ensures
        text@ == stage_detail(stage@),
{
    let mut text = String::from_str("失败阶段：");
    text.append(stage);
    text.append("。");
    text
}

impl RuntimeNotice {
    pub fn logging_unavailable(stage: &str) -> (notice: Self)
        ensures
            notice_is(notice, RuntimeNoticeCode::LoggingUnavailable, "日志服务未能启动，应用将继续运行。"@, Some(stage_detail(stage@))),
    {
        RuntimeNotice {
            code: RuntimeNoticeCode::LoggingUnavailable,
            summary: String::from_str("日志服务未能启动，应用将继续运行。"),
            detail: Some(stage_detail_text(stage)),
        }
    }

    pub fn session_marker_unavailable(kind: &IoErrorKind) -> (notice: Self)
        ensures
            notice_is(
                notice,
                RuntimeNoticeCode::SessionMarkerUnavailable,
                "异常会话检测不可用，应用将继续运行。"@,
                Some("错误类型："@ + io_kind_name(*kind) + "。"@),
            ),
    {
        let mut text = String::from_str("错误类型：");
        text.append(kind.name().as_str());
        text.append("。");
        RuntimeNotice {
            code: RuntimeNoticeCode::SessionMarkerUnavailable,
            summary: String::from_str("异常会话检测不可用，应用将继续运行。"),
            detail: Some(text),
        }
    }

    pub fn elevation_probe_failed(failure: &PrivilegeFailure) -> (notice: Self)
        ensures
            notice_is(
                notice,
                RuntimeNoticeCode::ElevationProbeFailed,
                "无法确认当前进程的管理员权限。"@,
                Some("失败阶段："@ + failure.stage@ + "；系统代码："@ + decimal(failure.code as nat) + "。"@),
            ),
    {
        let mut text = String::from_str("失败阶段：");
        text.append(failure.stage.as_str());
        text.append("；系统代码：");
        text.append(decimal_string(failure.code as u64).as_str());
        text.append("。");
        RuntimeNotice {
            code: RuntimeNoticeCode::ElevationProbeFailed,
            summary: String::from_str("无法确认当前进程的管理员权限。"),
            detail: Some(text),
        }
    }

    pub fn window_activation_failed() -> (notice: Self)
        ensures
            notice_is(notice, RuntimeNoticeCode::WindowActivationFailed, "收到新的启动请求，但窗口未能完全置前。"@, None),
    {
        RuntimeNotice {
            code: RuntimeNoticeCode::WindowActivationFailed,
            summary: String::from_str("收到新的启动请求，但窗口未能完全置前。"),
            detail: None,
        }
    }

    pub fn window_operation_failed(stage: &str) -> (notice: Self)
        ensures
            notice_is(notice, RuntimeNoticeCode::WindowOperationFailed, "窗口操作未能完全完成，应用仍可继续使用。"@, Some(stage_detail(stage@))),
    {
        RuntimeNotice {
            code: RuntimeNoticeCode::WindowOperationFailed,
            summary: String::from_str("窗口操作未能完全完成，应用仍可继续使用。"),
            detail: Some(stage_detail_text(stage)),
        }
    }

    pub fn window_persistence_failed(stage: &str) -> (notice: Self)
        ensures
            notice_is(notice, RuntimeNoticeCode::WindowPersistenceFailed, "窗口位置暂时无法保存，当前窗口状态不受影响。"@, Some(stage_detail(stage@))),
    {
        RuntimeNotice {
            code: RuntimeNoticeCode::WindowPersistenceFailed,
            summary: String::from_str("窗口位置暂时无法保存，当前窗口状态不受影响。"),
            detail: Some(stage_detail_text(stage)),
        }
    }

    pub fn tray_unavailable(stage: &str) -> (notice: Self)
        ensures
            notice_is(notice, RuntimeNoticeCode::TrayUnavailable, "系统托盘入口不可用，主窗口已保持可见。"@, Some(stage_detail(stage@))),
    {
        RuntimeNotice {
            code: RuntimeNoticeCode::TrayUnavailable,
            summary: String::from_str("系统托盘入口不可用，主窗口已保持可见。"),
            detail: Some(stage_detail_text(stage)),
        }
    }
}

/// Complete process state returned on every frontend bootstrap.
#[derive(Debug, PartialEq, Eq)]
pub struct RuntimeSnapshot {
    pub privilege: PrivilegeStatus,
    pub previous_abnormal_session_count: u32,
    pub primary_launch: LaunchRequestedEvent,
    pub latest_secondary_launch: Option<LaunchRequestedEvent>,
    pub notices: Vec<RuntimeNotice>,
}

/// Mathematical form of a runtime snapshot.
pub struct RuntimeSnapshotModel {
    pub privilege: PrivilegeModel,
    pub previous_abnormal_session_count: u32,
    pub primary_launch: (RequestModel, Seq<NoticeModel>),
    pub latest_secondary_launch: Option<(RequestModel, Seq<NoticeModel>)>,
    pub notices: Seq<RuntimeNoticeModel>,
}

impl View for RuntimeSnapshot {
    type V = RuntimeSnapshotModel;

    open spec fn view(&self) -> RuntimeSnapshotModel {
        RuntimeSnapshotModel {
            privilege: self.privilege@,
            previous_abnormal_session_count: self.previous_abnormal_session_count,
            primary_launch: self.primary_launch@,
            latest_secondary_launch: match self.latest_secondary_launch {
                Some(l) => Some(l@),
                None => None,
            },
            notices: runtime_notice_models(self.notices@),
        }
    }
}

fn clone_launch(launch: &Option<LaunchRequestedEvent>) -> (copy: Option<LaunchRequestedEvent>)
    ensures
        match (copy, *launch) {
            (Some(a), Some(b)) => a@ == b@,
            (None, None) => true,
            _ => false,
        },
{
    match launch {
        Some(l) => Some(l.clone()),
        None => None,
    }
}

fn clone_runtime_notices(notices: &Vec<RuntimeNotice>) -> (copy: Vec<RuntimeNotice>)
    ensures
        runtime_notice_models(copy@) == runtime_notice_models(notices@),
{
    let copy = notices.clone();
    assert(runtime_notice_models(copy@) =~= runtime_notice_models(notices@));
    copy
}

impl Clone for RuntimeSnapshot {
    fn clone(&self) -> (copy: Self)
        ensures
            copy@ == self@,
    {
        RuntimeSnapshot {
            privilege: self.privilege.clone(),
            previous_abnormal_session_count: self.previous_abnormal_session_count,
            primary_launch: self.primary_launch.clone(),
            latest_secondary_launch: clone_launch(&self.latest_secondary_launch),
            notices: clone_runtime_notices(&self.notices),
        }
    }
}

/// The first `n` items of `s`, or all of them.
pub open spec fn first_n<T>(s: Seq<T>, n: nat) -> Seq<T> {
    if s.len() <= n { s } else { s.subrange(0, n as int) }
}

impl RuntimeSnapshot {
    pub fn new(
        privilege: PrivilegeStatus,
        previous_abnormal_session_count: u32,
        primary_launch: LaunchRequestedEvent,
        notices: Vec<RuntimeNotice>,
    ) -> (snapshot: Self)
        ensures
            snapshot@ == (RuntimeSnapshotModel {
                privilege: privilege@,
                previous_abnormal_session_count,
                primary_launch: primary_launch@,
                latest_secondary_launch: None,
                notices: runtime_notice_models(first_n(notices@, MAX_RUNTIME_NOTICES as nat)),
            }),
    {
        let mut notices = notices;
        let ghost original = notices@;
        if notices.len() > MAX_RUNTIME_NOTICES {
            notices.truncate(MAX_RUNTIME_NOTICES);
        }
        RuntimeSnapshot {
            privilege,
            previous_abnormal_session_count,
            primary_launch,
            latest_secondary_launch: None,
            notices,
        }
    }
}

/// Whether two notices have the same code and the same detail.
pub open spec fn same_notice(a: RuntimeNoticeModel, b: RuntimeNoticeModel) -> bool {
    a.code == b.code && a.detail == b.detail
}

/// Authoritative runtime state: the snapshot and the activation handshake.
#[derive(Debug)]
pub struct RuntimeState {
    snapshot: RuntimeSnapshot,
    window_ready: bool,
    activation_requested: bool,
}

fn same_detail(a: &Option<String>, b: &Option<String>) -> (r: bool)
    ensures
        r == (opt_view(*a) == opt_view(*b)),
{
    match (a, b) {
        (Some(x), Some(y)) => crate::text::str_eq(x.as_str(), y.as_str()),
        (None, None) => true,
        _ => false,
    }
}

impl RuntimeState {
    /// The current snapshot.
    pub closed spec fn current(&self) -> RuntimeSnapshotModel {
        self.snapshot@
    }

    /// Whether the main window exists.
    pub closed spec fn is_window_ready(&self) -> bool {
        self.window_ready
    }

    /// Whether an activation is queued.
    pub closed spec fn is_activation_requested(&self) -> bool {
        self.activation_requested
    }

    pub fn new(snapshot: RuntimeSnapshot) -> (state: Self)
        ensures
            state.current() == snapshot@,
            !state.is_window_ready(),
            !state.is_activation_requested(),
    {
        RuntimeState { snapshot, window_ready: false, activation_requested: false }
    }

    pub fn snapshot(&self) -> (snapshot: RuntimeSnapshot)
        ensures
            snapshot@ == self.current(),
    {
        self.snapshot.clone()
    }

    /// Replaces startup-only fields without losing a secondary request
    /// received during setup.
    pub fn initialize(&mut self, snapshot: RuntimeSnapshot)
        ensures
            final(self).current() == (RuntimeSnapshotModel {
                latest_secondary_launch: old(self).current().latest_secondary_launch,
                ..snapshot@
            }),
            final(self).is_window_ready() == old(self).is_window_ready(),
            final(self).is_activation_requested() == old(self).is_activation_requested(),
    {
        let mut snapshot = snapshot;
        snapshot.latest_secondary_launch = clone_launch(&self.snapshot.latest_secondary_launch);
        self.snapshot = snapshot;
    }

    /// Records the latest secondary launch and queues an activation.
    pub fn record_secondary_launch(&mut self, launch: LaunchRequestedEvent)
        ensures
            final(self).current() == (RuntimeSnapshotModel {
                latest_secondary_launch: Some(launch@),
                ..old(self).current()
            }),
            final(self).is_window_ready() == old(self).is_window_ready(),
            final(self).is_activation_requested(),
    {
        self.snapshot.latest_secondary_launch = Some(launch);
        self.activation_requested = true;
    }

    /// Adds a notice unless an identical one is held or the bound is reached;
    /// returns whether it was added.
    pub fn push_notice(&mut self, notice: RuntimeNotice) -> (added: bool)
        ensures
            added == (
                !(exists|i: int| 0 <= i < old(self).current().notices.len()
                    && same_notice(#[trigger] old(self).current().notices[i], notice@))
                && old(self).current().notices.len() < MAX_RUNTIME_NOTICES),
            final(self).current().notices == if added {
                old(self).current().notices.push(notice@)
            } else {
                old(self).current().notices
            },
            final(self).current().privilege == old(self).current().privilege,
            final(self).current().previous_abnormal_session_count == old(self).current().previous_abnormal_session_count,
            final(self).current().primary_launch == old(self).current().primary_launch,
            final(self).current().latest_secondary_launch == old(self).current().latest_secondary_launch,
            final(self).is_window_ready() == old(self).is_window_ready(),
            final(self).is_activation_requested() == old(self).is_activation_requested(),
    {
        let n = self.snapshot.notices.len();
        let mut duplicate = false;
        let mut i: usize = 0;
        while i < n
            invariant
                n == self.snapshot.notices@.len(),
                i <= n,
                duplicate == exists|j: int| 0 <= j < i && same_notice(#[trigger] runtime_notice_models(self.snapshot.notices@)[j], notice@),
            decreases n - i,
        {
            let current = &self.snapshot.notices[i];
            assert(runtime_notice_models(self.snapshot.notices@)[i as int] == current@);
            if current.code == notice.code && same_detail(&current.detail, &notice.detail) {
                duplicate = true;
            }
            i += 1;
        }
        if !duplicate && n < MAX_RUNTIME_NOTICES {
            let ghost before = self.snapshot.notices@;
            self.snapshot.notices.push(notice);
            assert(runtime_notice_models(self.snapshot.notices@) =~= runtime_notice_models(before).push(notice@));
            true
        } else {
            false
        }
    }

    /// Marks the main window available and claims any activation queued
    /// during setup.
    pub fn mark_window_ready(&mut self) -> (activate: bool)
        ensures
            final(self).is_window_ready(),
            activate == old(self).is_activation_requested(),
            !final(self).is_activation_requested(),
            final(self).current() == old(self).current(),
    {
        self.window_ready = true;
        self.take_activation_request()
    }

    /// Claims a queued activation only after the main window exists.
    pub fn take_activation_request(&mut self) -> (activate: bool)
        ensures
            activate == (old(self).is_window_ready() && old(self).is_activation_requested()),
            final(self).is_activation_requested() == (old(self).is_activation_requested() && !activate),
            final(self).is_window_ready() == old(self).is_window_ready(),
            final(self).current() == old(self).current(),
    {
        if self.window_ready && self.activation_requested {
            self.activation_requested = false;
            true
        } else {
            false
        }
    }

    /// Restores an activation request after a failed native window operation.
    pub fn restore_activation_request(&mut self)
        ensures
            final(self).is_activation_requested(),
            final(self).is_window_ready() == old(self).is_window_ready(),
            final(self).current() == old(self).current(),
    {
        self.activation_requested = true;
    }
}

} // verus!
