use vstd::prelude::*;

use crate::model::DeviceLocation;

verus! {

/// The flags the loops share: whether the process is shutting down (set
/// once, never reset) and whether the published summary is stale.
#[derive(Clone, Copy, Debug)]
pub struct AppState {
    shutdown: bool,
    send_devices: bool,
}

/// What the discovery loop does next.
#[derive(Clone, Copy, Debug, PartialEq, Eq)]
pub enum IngestAction {
    /// Leave the loop.
    Stop,
    /// Wait a bounded time for the next discovery message.
    Receive,
}

/// What the publishing loop does next.
#[derive(Clone, Copy, Debug, PartialEq, Eq)]
pub enum PublishAction {
    /// Leave the loop.
    Stop,
    /// Publish a fresh summary, then drive the connection.
    Publish,
    /// Only drive the connection.
    Poll,
}

/// The discovery loop stops once shutdown is set, and receives otherwise.
pub open spec fn ingest_action_of(s: AppState) -> IngestAction {
    if s.shutting_down() {
        IngestAction::Stop
    } else {
        IngestAction::Receive
    }
}

/// The publishing loop stops once shutdown is set, publishes while the
/// summary is stale, and otherwise keeps the connection alive.
pub open spec fn publish_action_of(s: AppState) -> PublishAction {
    if s.shutting_down() {
        PublishAction::Stop
    } else if s.dirty() {
        PublishAction::Publish
    } else {
        PublishAction::Poll
    }
}

impl AppState {
    /// Whether the loops have been asked to stop.
    pub closed spec fn shutting_down(&self) -> bool {
        self.shutdown
    }

    /// Whether the published summary is stale.
    pub closed spec fn dirty(&self) -> bool {
        self.send_devices
    }

    /// Running, with nothing to publish.
    pub fn new() -> (r: AppState)
        ensures
            !r.shutting_down(),
            !r.dirty(),
    {
        AppState { shutdown: false, send_devices: false }
    }

    /// Asks every loop to stop.
    pub fn request_shutdown(&mut self)
        ensures
            final(self).shutting_down(),
            final(self).dirty() == old(self).dirty(),
    {
        self.shutdown = true;
    }

    /// Records that the summary must be published again.
    pub fn mark_dirty(&mut self)
        ensures
            final(self).dirty(),
            final(self).shutting_down() == old(self).shutting_down(),
    {
        self.send_devices = true;
    }

    /// Records that the summary is being taken for a publish. Called before
    /// the summary is computed, so that a change that arrives while the
    /// publish is under way marks it stale again; the flag stays cleared
    /// whatever the outcome of the publish.
    pub fn begin_publish(&mut self)
        ensures
            !final(self).dirty(),
            final(self).shutting_down() == old(self).shutting_down(),
    {
        self.send_devices = false;
    }

    /// Whether the loops have been asked to stop.
    pub fn is_shutting_down(&self) -> (r: bool)
        ensures
            r == self.shutting_down(),
    {
        self.shutdown
    }

    /// Whether the published summary is stale.
    pub fn is_dirty(&self) -> (r: bool)
        ensures
            r == self.dirty(),
    {
        self.send_devices
    }

    /// The next step of the discovery loop.
    pub fn ingest_action(&self) -> (r: IngestAction)
        ensures
            r == ingest_action_of(*self),
    {
        if self.shutdown {
            IngestAction::Stop
        } else {
            IngestAction::Receive
        }
    }

    /// The next step of the publishing loop.
    pub fn publish_action(&self) -> (r: PublishAction)
        ensures
            r == publish_action_of(*self),
    {
        if self.shutdown {
            PublishAction::Stop
        } else if self.send_devices {
            PublishAction::Publish
        } else {
            PublishAction::Poll
        }
    }
}

/// Takes in what one bounded wait for a discovery message gave: a decoded
/// list replaces the snapshot whole and marks the summary stale; nothing
/// (a timeout or an undecodable message) changes nothing.
pub fn apply_discovery(
    app_state: &mut AppState,
    snapshot: &mut Vec<DeviceLocation>,
    received: Option<Vec<DeviceLocation>>,
)
    ensures
        final(app_state).shutting_down() == old(app_state).shutting_down(),
        match received {
            Some(v) => final(snapshot)@ == v@ && final(app_state).dirty(),
            None => *final(snapshot) == *old(snapshot) && *final(app_state) == *old(app_state),
        },
{
    match received {
        Some(v) => {
            *snapshot = v;
            app_state.mark_dirty();
        },
        None => {},
    }
}

/// Once shutdown is set, the discovery loop and the publishing loop both
/// stop at their next step, whether or not a publish is pending.
pub proof fn lemma_shutdown_stops_loops(s: AppState)
    requires
        s.shutting_down(),
    ensures
        ingest_action_of(s) == IngestAction::Stop,
        publish_action_of(s) == PublishAction::Stop,
{
}

} // verus!
