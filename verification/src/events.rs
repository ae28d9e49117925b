//! Typed application events shared by the runtime and the shell.
use vstd::prelude::*;
use crate::launch::{LaunchNotice, LaunchRequest, ParsedLaunch, RequestModel, NoticeModel, notice_models, clone_notices};

verus! {

/// Name under which [`LaunchRequestedEvent`] is published.
pub const LAUNCH_REQUESTED_EVENT: &'static str = "app://launch-requested";
/// Name under which a configuration change is published.
pub const CONFIG_CHANGED_EVENT: &'static str = "config://changed";
/// Name under which a window state change is published.
pub const WINDOW_STATE_CHANGED_EVENT: &'static str = "window://state-changed";
/// Name under which a runtime notice is published.
pub const RUNTIME_NOTICE_EVENT: &'static str = "app://runtime-notice";

/// A validated launch request submitted by a launch of the process.
#[derive(Debug, PartialEq, Eq)]
pub struct LaunchRequestedEvent {
    pub request: LaunchRequest,
    pub notices: Vec<LaunchNotice>,
}

impl View for LaunchRequestedEvent {
    type V = (RequestModel, Seq<NoticeModel>);

    open spec fn view(&self) -> (RequestModel, Seq<NoticeModel>) {
        (self.request@, notice_models(self.notices@))
    }
}

impl Clone for LaunchRequestedEvent {
    fn clone(&self) -> (copy: Self)
        ensures
            copy@ == self@,
    {
        LaunchRequestedEvent { request: self.request.clone(), notices: clone_notices(&self.notices) }
    }
}

impl From<ParsedLaunch> for LaunchRequestedEvent {
    fn from(parsed: ParsedLaunch) -> (event: Self) {
        LaunchRequestedEvent { request: parsed.request, notices: parsed.notices }
    }
}

impl vstd::std_specs::convert::FromSpecImpl<ParsedLaunch> for LaunchRequestedEvent {
    open spec fn obeys_from_spec() -> bool {
        true
    }

    open spec fn from_spec(parsed: ParsedLaunch) -> Self {
        LaunchRequestedEvent { request: parsed.request, notices: parsed.notices }
    }
}

} // verus!

verus! {

/// Full configuration snapshot published after a successful commit.
#[derive(Debug, PartialEq, Eq)]
pub struct ConfigChangedEvent {
    pub snapshot: crate::config::snapshot::ConfigSnapshot,
}

/// The event published for `snapshot`.
pub open spec fn changed_event(snapshot: crate::config::snapshot::ConfigSnapshot) -> ConfigChangedEvent {
    ConfigChangedEvent { snapshot }
}

/// Publishes configuration changes through a listener. What the listener
/// answers is its own affair: a failure to publish never becomes the
/// failure of the command that changed the configuration.
pub struct ConfigEventEmitter<E: Fn(ConfigChangedEvent) -> Result<(), String>> {
    emit: E,
}

impl<E: Fn(ConfigChangedEvent) -> Result<(), String>> ConfigEventEmitter<E> {
    #[verifier::type_invariant]
    spec fn accepts_every_event(&self) -> bool {
        forall|event: ConfigChangedEvent| call_requires(self.emit, (event,))
    }

    /// The listener events are handed to.
    pub closed spec fn listener(&self) -> E {
        self.emit
    }

    /// An emitter that hands each event to `emit`.
    pub fn new(emit: E) -> (emitter: Self)
        requires
            forall|event: ConfigChangedEvent| call_requires(emit, (event,)),
        ensures
            emitter.listener() == emit,
    {
        ConfigEventEmitter { emit }
    }

    /// Hands the change event for `snapshot` to the listener, once, and
    /// drops its answer.
    pub fn emit_changed(&self, snapshot: crate::config::snapshot::ConfigSnapshot)
        ensures
            exists|answer: Result<(), String>| call_ensures(self.listener(), (changed_event(snapshot),), answer),
    {
        proof { use_type_invariant(self); }
        let ghost published = changed_event(snapshot);
        let event = ConfigChangedEvent { snapshot };
        let answer = (self.emit)(event);
        assert(call_ensures(self.listener(), (published,), answer));
    }
}

/// Authoritative main-window state published after a native transition.
#[derive(Clone, Copy, Debug, PartialEq, Eq)]
pub struct WindowStateChangedEvent {
    pub snapshot: crate::window::lifecycle::WindowStateSnapshot,
}

/// A bounded native warning emitted after frontend bootstrap.
#[derive(Debug, PartialEq, Eq)]
pub struct RuntimeNoticeEvent {
    pub notice: crate::runtime::RuntimeNotice,
}

} // verus!
