//! Revisioned main-window lifecycle state and the coordinator's decisions.
use vstd::prelude::*;
use crate::config::model::CloseAction;

verus! {

/// What the window commands ask for.
#[derive(Clone, Copy, Debug, PartialEq, Eq, Structural)]
pub enum WindowControlIntent {
    MinimizeToTray,
    ToggleMaximize,
    Close,
}

/// Visibility of the main window; `Exiting` is final.
#[derive(Clone, Copy, Debug, PartialEq, Eq, Structural)]
pub enum WindowVisibility {
    Visible,
    Hidden,
    Exiting,
}

/// Authoritative main-window state published to the frontend.
#[derive(Clone, Copy, Debug, PartialEq, Eq, Structural)]
pub struct WindowStateSnapshot {
    pub revision: u64,
    pub visibility: WindowVisibility,
    pub maximized: bool,
}

/// Window lifecycle state and the generation of the delayed-tray timer.
#[derive(Clone, Copy, Debug, PartialEq, Eq, Structural)]
pub struct LifecycleState {
    pub snapshot: WindowStateSnapshot,
    pub delay_generation: u64,
}

/// The revision after one more change.
pub open spec fn next_revision(revision: u64) -> u64 {
    if revision < u64::MAX { (revision + 1) as u64 } else { u64::MAX }
}

/// The generation after one more invalidation (wrapping).
pub open spec fn next_generation(generation: u64) -> u64 {
    if generation < u64::MAX { (generation + 1) as u64 } else { 0 }
}

/// The state after asking for `visibility`: unchanged when it already is
/// that or the window is exiting, else changed with the next revision.
pub open spec fn visibility_set(state: LifecycleState, visibility: WindowVisibility) -> LifecycleState {
    if state.snapshot.visibility != visibility && state.snapshot.visibility != WindowVisibility::Exiting {
        LifecycleState {
            snapshot: WindowStateSnapshot {
                revision: next_revision(state.snapshot.revision),
                visibility,
                ..state.snapshot
            },
            ..state
        }
    } else {
        state
    }
}

/// The state after asking for `maximized`: changed with the next revision
/// only when it differs.
pub open spec fn maximized_set(state: LifecycleState, maximized: bool) -> LifecycleState {
    if state.snapshot.maximized != maximized {
        LifecycleState {
            snapshot: WindowStateSnapshot { revision: next_revision(state.snapshot.revision), maximized, ..state.snapshot },
            ..state
        }
    } else {
        state
    }
}

impl LifecycleState {
    pub fn new(visibility: WindowVisibility, maximized: bool) -> (state: Self)
        ensures
            state.snapshot == (WindowStateSnapshot { revision: 0, visibility, maximized }),
            state.delay_generation == 0,
    {
        LifecycleState { snapshot: WindowStateSnapshot { revision: 0, visibility, maximized }, delay_generation: 0 }
    }

    /// Changes the visibility unless it is already that value or the window is
    /// exiting; returns whether it changed.
    pub fn set_visibility(&mut self, visibility: WindowVisibility) -> (changed: bool)
        ensures
            changed == (old(self).snapshot.visibility != visibility
                && old(self).snapshot.visibility != WindowVisibility::Exiting),
            *final(self) == if changed {
                LifecycleState {
                    snapshot: WindowStateSnapshot {
                        revision: next_revision(old(self).snapshot.revision),
                        visibility,
                        ..old(self).snapshot
                    },
                    ..*old(self)
                }
            } else {
                *old(self)
            },
    {
        if self.snapshot.visibility == visibility || self.snapshot.visibility == WindowVisibility::Exiting {
            return false;
        }
        self.snapshot.visibility = visibility;
        self.bump_revision();
        true
    }

    /// Changes the maximized flag; returns whether it changed.
    pub fn set_maximized(&mut self, maximized: bool) -> (changed: bool)
        ensures
            changed == (old(self).snapshot.maximized != maximized),
            *final(self) == if changed {
                LifecycleState {
                    snapshot: WindowStateSnapshot {
                        revision: next_revision(old(self).snapshot.revision),
                        maximized,
                        ..old(self).snapshot
                    },
                    ..*old(self)
                }
            } else {
                *old(self)
            },
    {
        if self.snapshot.maximized == maximized {
            return false;
        }
        self.snapshot.maximized = maximized;
        self.bump_revision();
        true
    }

    /// Invalidates every pending delayed-tray timer and returns the new generation.
    pub fn invalidate_delay(&mut self) -> (generation: u64)
        ensures
            generation == next_generation(old(self).delay_generation),
            generation != old(self).delay_generation,
            *final(self) == (LifecycleState { delay_generation: generation, ..*old(self) }),
    {
        self.delay_generation = self.delay_generation.wrapping_add(1);
        self.delay_generation
    }

    /// Counts one more published change, saturating.
    pub fn bump_revision(&mut self)
        ensures
            *final(self) == (LifecycleState {
                snapshot: WindowStateSnapshot { revision: next_revision(old(self).snapshot.revision), ..old(self).snapshot },
                ..*old(self)
            }),
    {
        self.snapshot.revision = self.snapshot.revision.saturating_add(1);
    }
}

/// Once exiting, no visibility change leaves `Exiting`, and the revision and
/// visibility only change together.
pub proof fn lemma_exiting_is_final(state: LifecycleState, visibility: WindowVisibility)
    requires
        state.snapshot.visibility == WindowVisibility::Exiting,
    ensures
        !(state.snapshot.visibility != visibility && state.snapshot.visibility != WindowVisibility::Exiting),
{
}

/// Whether the delayed tray timer of `generation` may still create the tray:
/// it is the current timer, the window is hidden and no tray exists.
pub open spec fn delayed_tray_is_current(state: LifecycleState, generation: u64, tray_present: bool) -> bool {
    state.delay_generation == generation
        && state.snapshot.visibility == WindowVisibility::Hidden
        && !tray_present
}

/// Exec form of [`delayed_tray_is_current`].
pub fn delayed_tray_due(state: &LifecycleState, generation: u64, tray_present: bool) -> (due: bool)
    ensures
        due == delayed_tray_is_current(*state, generation, tray_present),
{
    state.delay_generation == generation && state.snapshot.visibility == WindowVisibility::Hidden && !tray_present
}

/// Whether a delayed tray timer may be scheduled: only while hidden without a tray.
pub fn delayed_tray_wanted(state: &LifecycleState, tray_present: bool) -> (wanted: bool)
    ensures
        wanted == (state.snapshot.visibility == WindowVisibility::Hidden && !tray_present),
{
    state.snapshot.visibility == WindowVisibility::Hidden && !tray_present
}

/// After an invalidation, no timer started under an earlier generation is current.
pub proof fn lemma_invalidation_cancels_timer(state: LifecycleState, tray_present: bool)
    ensures
        !delayed_tray_is_current(
            LifecycleState { delay_generation: next_generation(state.delay_generation), ..state },
            state.delay_generation,
            tray_present,
        ),
{
}

/// What closing the main window does.
#[derive(Clone, Copy, Debug, PartialEq, Eq, Structural)]
pub enum CloseDecision {
    /// The configured action is to exit.
    Exit,
    /// The configured action is to hide to the tray.
    HideToTray,
    /// The configured action could not be read: report it, then hide.
    ReportThenHide,
}

/// The close decision for the configured close action, if it could be read.
pub fn close_decision(close_action: Option<CloseAction>) -> (decision: CloseDecision)
    ensures
        decision == match close_action {
            Some(CloseAction::Exit) => CloseDecision::Exit,
            Some(CloseAction::MinimizeToTray) => CloseDecision::HideToTray,
            None => CloseDecision::ReportThenHide,
        },
{
    match close_action {
        Some(CloseAction::Exit) => CloseDecision::Exit,
        Some(CloseAction::MinimizeToTray) => CloseDecision::HideToTray,
        None => CloseDecision::ReportThenHide,
    }
}

/// Whether hiding to the tray has anything to do: only a visible window is hidden.
pub fn hide_needed(state: &LifecycleState) -> (needed: bool)
    ensures
        needed == (state.snapshot.visibility == WindowVisibility::Visible),
{
    state.snapshot.visibility == WindowVisibility::Visible
}

impl LifecycleState {
    /// Enters `Exiting`; returns whether the exit still has to be prepared
    /// (it was not exiting before).
    pub fn begin_exit(&mut self) -> (prepare: bool)
        ensures
            prepare == (old(self).snapshot.visibility != WindowVisibility::Exiting),
            final(self).snapshot.visibility == WindowVisibility::Exiting,
            !prepare ==> *final(self) == *old(self),
            prepare ==> final(self).snapshot.revision == next_revision(old(self).snapshot.revision),
    {
        let prepare = self.snapshot.visibility != WindowVisibility::Exiting;
        self.set_visibility(WindowVisibility::Exiting);
        prepare
    }

    /// Records what a restore achieved: visible only if the window was shown,
    /// and the maximized state the window reports.
    pub fn after_restore(&mut self, shown: bool, maximized: bool)
        ensures
            shown && old(self).snapshot.visibility != WindowVisibility::Exiting
                ==> final(self).snapshot.visibility == WindowVisibility::Visible,
            !shown ==> final(self).snapshot.visibility == old(self).snapshot.visibility,
            final(self).snapshot.maximized == maximized,
            final(self).delay_generation == old(self).delay_generation,
            *final(self) == maximized_set(
                if shown {
                    visibility_set(*old(self), WindowVisibility::Visible)
                } else {
                    *old(self)
                },
                maximized,
            ),
    {
        if shown {
            self.set_visibility(WindowVisibility::Visible);
        }
        self.set_maximized(maximized);
    }
}

} // verus!
