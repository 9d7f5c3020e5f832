//! Listener for enqueued jobs: relays notifications of the database into wakes
//! of the workers, and reconnects when its connection dies.
//!
//! Polling stays as a safety net: notifications can be missed.

use vstd::prelude::*;

verus! {

/// How long to wait before a new connection is tried, in seconds.
pub const RECONNECT_BACKOFF_SECS: u64 = 5;

/// Where a listener is: about to connect, subscribing, subscribed, waiting to
/// try again, or stopped.
#[derive(Clone, Copy, Debug, PartialEq, Eq, Structural)]
pub enum Listener {
    Idle,
    Connecting,
    Subscribing,
    Subscribed,
    BackingOff,
    Stopped,
}

/// What happens to a listener.
#[derive(Clone, Copy, Debug, PartialEq, Eq, Structural)]
pub enum ListenerEvent {
    /// It looks up: whether shutdown has been asked for.
    Tick { shutdown: bool },
    /// The connection stands.
    Connected,
    /// The subscription stands.
    Listening,
    /// A notification came.
    Notified,
    /// What was tried last has failed.
    Failed,
    /// The wait is over.
    Rested,
    /// Shutdown was asked for while it waited.
    ShutdownAsked,
}

/// What a listener does next.
#[derive(Clone, Copy, Debug, PartialEq, Eq, Structural)]
pub enum ListenerAction {
    /// Look up.
    LookUp,
    /// Connect.
    Connect,
    /// Subscribe to the channel.
    Listen,
    /// Wait for a notification or shutdown.
    Receive,
    /// Wake the workers, then wait for a notification or shutdown.
    WakeAndReceive,
    /// Wait for the backoff or shutdown.
    BackOff,
    /// Stop.
    Stop,
}

/// What a listener does when something happens, and where it is then. An event
/// that does not belong to where the listener is changes nothing.
pub open spec fn listener_step(at: Listener, event: ListenerEvent) -> (Listener, ListenerAction) {
    match (at, event) {
        (Listener::Stopped, _) => (Listener::Stopped, ListenerAction::Stop),
        (Listener::Idle, ListenerEvent::Tick { shutdown }) => if shutdown {
            (Listener::Stopped, ListenerAction::Stop)
        } else {
            (Listener::Connecting, ListenerAction::Connect)
        },
        (Listener::Connecting, ListenerEvent::Connected) => (
            Listener::Subscribing,
            ListenerAction::Listen,
        ),
        (Listener::Connecting, ListenerEvent::Failed) => (
            Listener::BackingOff,
            ListenerAction::BackOff,
        ),
        (Listener::Subscribing, ListenerEvent::Listening) => (
            Listener::Subscribed,
            ListenerAction::Receive,
        ),
        (Listener::Subscribing, ListenerEvent::Failed) => (
            Listener::BackingOff,
            ListenerAction::BackOff,
        ),
        (Listener::Subscribed, ListenerEvent::Notified) => (
            Listener::Subscribed,
            ListenerAction::WakeAndReceive,
        ),
        (Listener::Subscribed, ListenerEvent::Failed) => (Listener::Idle, ListenerAction::LookUp),
        (Listener::BackingOff, ListenerEvent::Rested) => (Listener::Idle, ListenerAction::LookUp),
        (Listener::Subscribed, ListenerEvent::ShutdownAsked)
        | (Listener::BackingOff, ListenerEvent::ShutdownAsked) => (
            Listener::Stopped,
            ListenerAction::Stop,
        ),
        _ => (at, ListenerAction::LookUp),
    }
}

/// What a listener does when something happens.
pub fn run(at: Listener, event: ListenerEvent) -> (r: (Listener, ListenerAction))
    ensures
        r == listener_step(at, event),
{
    match (at, event) {
        (Listener::Stopped, _) => (Listener::Stopped, ListenerAction::Stop),
        (Listener::Idle, ListenerEvent::Tick { shutdown }) => if shutdown {
            (Listener::Stopped, ListenerAction::Stop)
        } else {
            (Listener::Connecting, ListenerAction::Connect)
        },
        (Listener::Connecting, ListenerEvent::Connected) => (
            Listener::Subscribing,
            ListenerAction::Listen,
        ),
        (Listener::Connecting, ListenerEvent::Failed) => (
            Listener::BackingOff,
            ListenerAction::BackOff,
        ),
        (Listener::Subscribing, ListenerEvent::Listening) => (
            Listener::Subscribed,
            ListenerAction::Receive,
        ),
        (Listener::Subscribing, ListenerEvent::Failed) => (
            Listener::BackingOff,
            ListenerAction::BackOff,
        ),
        (Listener::Subscribed, ListenerEvent::Notified) => (
            Listener::Subscribed,
            ListenerAction::WakeAndReceive,
        ),
        (Listener::Subscribed, ListenerEvent::Failed) => (Listener::Idle, ListenerAction::LookUp),
        (Listener::BackingOff, ListenerEvent::Rested) => (Listener::Idle, ListenerAction::LookUp),
        (Listener::Subscribed, ListenerEvent::ShutdownAsked)
        | (Listener::BackingOff, ListenerEvent::ShutdownAsked) => (
            Listener::Stopped,
            ListenerAction::Stop,
        ),
        _ => (at, ListenerAction::LookUp),
    }
}

/// Every notification that a subscribed listener gets wakes the workers.
pub proof fn law_notifications_wake_the_workers()
    ensures
        listener_step(Listener::Subscribed, ListenerEvent::Notified) == (
            Listener::Subscribed,
            ListenerAction::WakeAndReceive,
        ),
{
}

/// A listener whose connection dies comes back to connecting, unless shutdown
/// has been asked for.
pub proof fn law_listener_reconnects()
    ensures
        ({
            let (lost, _a) = listener_step(Listener::Subscribed, ListenerEvent::Failed);
            listener_step(lost, ListenerEvent::Tick { shutdown: false }) == (
                Listener::Connecting,
                ListenerAction::Connect,
            ) && listener_step(lost, ListenerEvent::Tick { shutdown: true }).0 is Stopped
        }),
        ({
            let (waiting, _a) = listener_step(Listener::Connecting, ListenerEvent::Failed);
            let (rested, _b) = listener_step(waiting, ListenerEvent::Rested);
            listener_step(rested, ListenerEvent::Tick { shutdown: false }).0 is Connecting
        }),
{
}

} // verus!
