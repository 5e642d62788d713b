//! Endpoint hot-plug notifications.
//!
//! Notifications arrive at any time; the user interface polls
//! [`HotplugWatcher::take_changes`] and re-enumerates the devices if the
//! device set may have changed.
use vstd::prelude::*;

verus! {

/// What a notification is about.
#[derive(Debug, Clone, Copy, PartialEq, Eq, Structural)]
pub enum DeviceEvent {
    StateChanged,
    Added,
    Removed,
    DefaultChanged,
    PropertyChanged,
}

impl DeviceEvent {
    /// Property changes (e.g. renames) do not affect the device set; all other
    /// events may.
    pub open spec fn affects_devices(self) -> bool {
        !(self is PropertyChanged)
    }
}

/// The notifications since the last poll, as far as they matter.
#[derive(Debug, Clone, Copy, PartialEq, Eq, Structural)]
pub struct HotplugWatcher {
    pub changed: bool,
}

impl HotplugWatcher {
    pub fn new() -> (watcher: Self)
        ensures
            !watcher.changed,
    {
        Self { changed: false }
    }

    /// Takes one notification.
    pub fn notify(&mut self, event: DeviceEvent)
        ensures
            final(self).changed == (old(self).changed || event.affects_devices()),
    {
        match event {
            DeviceEvent::PropertyChanged => {},
            _ => {
                self.changed = true;
            },
        }
    }

    /// True if the device set may have changed since the last poll.
    pub fn take_changes(&mut self) -> (changed: bool)
        ensures
            changed == old(self).changed,
            !final(self).changed,
    {
        let changed = self.changed;
        self.changed = false;
        changed
    }
}

/// Whether a watcher that was just polled reports a change after `events`.
pub open spec fn changed_after(events: Seq<DeviceEvent>) -> bool
    decreases events.len(),
{
    events.len() > 0 && (changed_after(events.drop_last()) || events.last().affects_devices())
}

/// A poll reports a change exactly if one of the notifications since the last
/// poll may affect the device set, however many there were.
pub proof fn law_poll_reports_changes(events: Seq<DeviceEvent>)
    ensures
        changed_after(events) <==> exists|i: int|
            0 <= i < events.len() && (#[trigger] events[i]).affects_devices(),
    decreases events.len(),
{
    if events.len() > 0 {
        let before = events.drop_last();
        law_poll_reports_changes(before);
        assert forall|i: int| 0 <= i < before.len() implies #[trigger] before[i] == events[i] by {}
        if changed_after(before) {
            let i = choose|i: int|
                0 <= i < before.len() && (#[trigger] before[i]).affects_devices();
            assert(events[i].affects_devices());
        }
        if exists|i: int| 0 <= i < events.len() && (#[trigger] events[i]).affects_devices() {
            let i = choose|i: int|
                0 <= i < events.len() && (#[trigger] events[i]).affects_devices();
            if i < events.len() - 1 {
                assert(before[i].affects_devices());
            }
        }
    }
}

/// Arrivals, removals, state changes and a changed default device all make a
/// poll report; a changed property alone never does.
pub proof fn law_only_property_changes_are_ignored(event: DeviceEvent)
    ensures
        changed_after(seq![event]) <==> event != DeviceEvent::PropertyChanged,
        event.affects_devices() <==> event != DeviceEvent::PropertyChanged,
        !changed_after(Seq::empty()),
{
    law_poll_reports_changes(seq![event]);
    assert(seq![event][0] == event);
}

} // verus!
