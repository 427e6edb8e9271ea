//! A secondary's test knobs and how it treats a message it receives.

use vstd::prelude::*;
use crate::model::SecondarySettings;

verus! {

/// What a secondary's settings stand for.
pub struct SettingsView {
    pub name: Seq<char>,
    pub delay_ms: u64,
    pub failing: bool,
}

/// The view of a settings value as exchanged with clients.
pub open spec fn settings_view(s: SecondarySettings) -> SettingsView {
    SettingsView { name: s.name@, delay_ms: s.delay_ms, failing: s.failing }
}

/// A secondary's current settings.
pub struct Settings {
    name: String,
    delay_ms: u64,
    failing: bool,
}

impl View for Settings {
    type V = SettingsView;

    closed spec fn view(&self) -> SettingsView {
        SettingsView { name: self.name@, delay_ms: self.delay_ms, failing: self.failing }
    }
}

impl Settings {
    /// The settings after `next` has been applied to `self`.
    pub closed spec fn after_apply(self, next: SecondarySettings) -> Settings {
        Settings { name: next.name, delay_ms: next.delay_ms, failing: next.failing }
    }

    /// The value that a snapshot of `self` hands out.
    pub closed spec fn snapshot_value(self) -> SecondarySettings {
        SecondarySettings { name: self.name, delay_ms: self.delay_ms, failing: self.failing }
    }

    /// The settings a secondary starts with: no name, no delay, not failing.
    pub fn new() -> (s: Settings)
        ensures
            s@ == (SettingsView { name: Seq::empty(), delay_ms: 0, failing: false }),
    {
        Settings { name: String::new(), delay_ms: 0, failing: false }
    }

    /// The current settings, as a value to hand out.
    pub fn snapshot(&self) -> (r: SecondarySettings)
        ensures
            r == self.snapshot_value(),
            settings_view(r) == self@,
    {
        SecondarySettings { name: self.name.clone(), delay_ms: self.delay_ms, failing: self.failing }
    }

    /// Replaces every setting by those of `next`.
    pub fn apply(&mut self, next: SecondarySettings)
        ensures
            *final(self) == old(self).after_apply(next),
            final(self)@ == settings_view(next),
    {
        self.name = next.name;
        self.delay_ms = next.delay_ms;
        self.failing = next.failing;
    }
}

/// Reading the settings after an update gives back exactly what was
/// written, whatever they were before: the snapshot of `s` after
/// `apply(next)` is `next`; and of two updates the second wins.
pub proof fn law_settings_read_after_write(s: Settings, first: SecondarySettings, next: SecondarySettings)
    ensures
        s.after_apply(next).snapshot_value() == next,
        s.after_apply(first).after_apply(next) == s.after_apply(next),
        s.after_apply(next)@ == settings_view(next),
{
}

/// Where a secondary is in handling one received message.
#[derive(Clone, Copy, Debug, PartialEq, Eq)]
pub enum ReceiveStage {
    /// The message has just arrived.
    Arrived,
    /// The configured delay has passed.
    Delayed,
}

/// What a secondary does next with a received message.
#[derive(Clone, Copy, Debug, PartialEq, Eq)]
pub enum ReceiveAction {
    /// Refuse it (the secondary is set to fail).
    Reject,
    /// Wait this many milliseconds, then come back at `Delayed`.
    Wait(u64),
    /// Store it and acknowledge.
    Store,
}

/// The step a secondary takes with a received message at `stage`, under
/// the settings as they read at that moment (they may change while it
/// waits, so they are read again after the delay).
pub open spec fn receive_step_spec(stage: ReceiveStage, settings: SettingsView) -> ReceiveAction {
    if settings.failing {
        ReceiveAction::Reject
    } else {
        match stage {
            ReceiveStage::Arrived => if settings.delay_ms > 0 {
                ReceiveAction::Wait(settings.delay_ms)
            } else {
                ReceiveAction::Store
            },
            ReceiveStage::Delayed => ReceiveAction::Store,
        }
    }
}

/// The step a secondary takes with a received message at `stage`.
pub fn receive_step(stage: ReceiveStage, settings: &SecondarySettings) -> (r: ReceiveAction)
    ensures
        r == receive_step_spec(stage, settings_view(*settings)),
        settings.failing ==> r == ReceiveAction::Reject,
        !settings.failing && stage == ReceiveStage::Arrived && settings.delay_ms > 0 ==> r == ReceiveAction::Wait(
            settings.delay_ms,
        ),
        !settings.failing && (stage == ReceiveStage::Delayed || settings.delay_ms == 0) ==> r == ReceiveAction::Store,
{
    if settings.failing {
        ReceiveAction::Reject
    } else {
        match stage {
            ReceiveStage::Arrived => {
                if settings.delay_ms > 0 {
                    ReceiveAction::Wait(settings.delay_ms)
                } else {
                    ReceiveAction::Store
                }
            },
            ReceiveStage::Delayed => ReceiveAction::Store,
        }
    }
}

/// The HTTP status a secondary answers with once it has stored (true) or
/// refused (false) a message: 200 OK or 503 Service Unavailable.
pub fn receive_status(stored: bool) -> (r: u16)
    ensures
        r == (if stored { 200u16 } else { 503u16 }),
{
    if stored {
        200
    } else {
        503
    }
}

/// A received message is never stored while the secondary is set to fail;
/// a secondary that is not failing and has a positive delay waits exactly
/// that delay on arrival, and stores the message once the delay has passed
/// if it is still not failing; a secondary waits at most once per message
/// (only on arrival, only for its configured delay, never after the delay);
/// and one that is not failing and has no delay stores at once.
pub proof fn law_receive_protocol(stage: ReceiveStage, settings: SettingsView)
    ensures
        settings.failing ==> receive_step_spec(stage, settings) == ReceiveAction::Reject,
        receive_step_spec(stage, settings) == ReceiveAction::Store ==> !settings.failing,
        receive_step_spec(ReceiveStage::Delayed, settings) !is Wait,
        receive_step_spec(stage, settings) matches ReceiveAction::Wait(ms) ==> stage == ReceiveStage::Arrived
            && ms == settings.delay_ms && ms > 0,
        !settings.failing && settings.delay_ms == 0 ==> receive_step_spec(ReceiveStage::Arrived, settings)
            == ReceiveAction::Store,
        !settings.failing && settings.delay_ms > 0 ==> receive_step_spec(ReceiveStage::Arrived, settings)
            == ReceiveAction::Wait(settings.delay_ms),
        !settings.failing ==> receive_step_spec(ReceiveStage::Delayed, settings) == ReceiveAction::Store,
{
}

} // verus!
