//! What the event source delivers: window messages, and the signal codes
//! that hardware-change messages carry.

use vstd::prelude::*;

verus! {

/// Signal code: the device node list changed.
pub const SIGNAL_NODES_CHANGED: u64 = 0x0007;

/// Signal code: a device arrived.
pub const SIGNAL_DEVICE_ARRIVAL: u64 = 0x8000;

/// Signal code: removal of a device is complete.
pub const SIGNAL_REMOVE_COMPLETE: u64 = 0x8004;

/// Window message that carries a hardware-change signal code.
pub const MESSAGE_DEVICE_CHANGE: u32 = 0x0219;

/// Window message that announces the end of the watcher's window.
pub const MESSAGE_DESTROY: u32 = 0x0002;

/// Where a window message goes.
#[derive(Clone, Copy, Debug, PartialEq, Eq, Structural)]
pub enum MessageRoute {
    /// A hardware change: its signal code goes to the debounce gate.
    DeviceChange,
    /// The window is gone: the event loop is to end.
    Quit,
    /// Not the watcher's business: default handling.
    Unhandled,
}

/// What `route_message` answers.
pub open spec fn spec_route_message(message: u32) -> MessageRoute {
    if message == MESSAGE_DEVICE_CHANGE {
        MessageRoute::DeviceChange
    } else if message == MESSAGE_DESTROY {
        MessageRoute::Quit
    } else {
        MessageRoute::Unhandled
    }
}

/// Sorts a window message into the three things the watcher does with one.
#[verifier::when_used_as_spec(spec_route_message)]
pub fn route_message(message: u32) -> (route: MessageRoute)
    ensures
        route == spec_route_message(message),
{
    if message == MESSAGE_DEVICE_CHANGE {
        MessageRoute::DeviceChange
    } else if message == MESSAGE_DESTROY {
        MessageRoute::Quit
    } else {
        MessageRoute::Unhandled
    }
}

/// What `is_eligible` answers.
pub open spec fn spec_is_eligible(signal_code: u64) -> bool {
    signal_code == SIGNAL_NODES_CHANGED || signal_code == SIGNAL_DEVICE_ARRIVAL || signal_code
        == SIGNAL_REMOVE_COMPLETE
}

/// Whether a signal code is one of the three that can mean a plug or unplug.
#[verifier::when_used_as_spec(spec_is_eligible)]
pub fn is_eligible(signal_code: u64) -> (eligible: bool)
    ensures
        eligible == spec_is_eligible(signal_code),
{
    signal_code == SIGNAL_NODES_CHANGED || signal_code == SIGNAL_DEVICE_ARRIVAL || signal_code
        == SIGNAL_REMOVE_COMPLETE
}

} // verus!
