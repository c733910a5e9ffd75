use vstd::prelude::*;
use vstd::string::StringExecFns;

verus! {

/// Where the link from an agent to one server stands.
#[derive(Debug, Clone, Copy, PartialEq, Eq)]
pub enum LinkState {
    /// Opening the websocket; `failures` attempts of this round have failed.
    Connecting { failures: u32 },
    /// Connected; the task-listener registration is being written.
    Registering,
    /// Connected; messages flow both ways.
    Relaying,
    /// The local sending side closed; the link is given up.
    Stopped,
}

/// What happened since the last step.
#[derive(Debug, Clone, Copy, PartialEq, Eq)]
pub enum LinkEvent {
    /// A connection attempt failed or timed out.
    ConnectFailed,
    /// The websocket is open; `allow_task` is the server's setting.
    Connected { allow_task: Option<bool> },
    /// The registration message was written.
    RegistrationSent,
    /// Writing the registration message failed.
    RegistrationFailed,
    /// A local message is waiting to go to the server.
    UplinkReceived,
    /// The local channel dropped this many old messages.
    UplinkLagged(u64),
    /// The local channel closed.
    UplinkClosed,
    /// Writing a local message to the server failed.
    UplinkWriteFailed,
    /// The local message was written to the server, or the server's message
    /// was handed to local subscribers.
    Delivered,
    /// The server sent a message.
    DownlinkReceived,
    /// Reading from the server failed.
    DownlinkFailed,
    /// The server closed the connection.
    DownlinkClosed,
}

/// What the connection task does next.
#[derive(Debug, Clone, Copy, PartialEq, Eq)]
pub enum LinkAction {
    /// Try to open the websocket now.
    Connect,
    /// Wait this many seconds, then try to open the websocket.
    RetryAfterSecs(u64),
    /// Write the task-listener registration to the server.
    SendRegistration,
    /// Write the waiting local message to the server.
    ForwardToServer,
    /// Hand the server's message to local subscribers.
    BroadcastToLocal,
    /// Wait for the next local or server message.
    AwaitMessages,
    /// End the connection task.
    Exit,
}

/// Seconds to wait before the next attempt once `failures` attempts of this
/// round have failed: 2 for the first four, then 5.
pub open spec fn retry_wait(failures: nat) -> nat {
    if failures < 5 {
        2
    } else {
        5
    }
}

/// The next state and action of the link after `event` in `state`. An event
/// that cannot happen in a state leaves the state as it is and waits.
pub open spec fn link_transition(state: LinkState, event: LinkEvent) -> (LinkState, LinkAction) {
    match (state, event) {
        (LinkState::Connecting { failures }, LinkEvent::ConnectFailed) => {
            let n: u32 = if failures < u32::MAX {
                (failures + 1) as u32
            } else {
                failures
            };
            (LinkState::Connecting { failures: n }, LinkAction::RetryAfterSecs(retry_wait(n as nat) as u64))
        },
        (LinkState::Connecting { .. }, LinkEvent::Connected { allow_task }) => if allow_task == Some(true) {
            (LinkState::Registering, LinkAction::SendRegistration)
        } else {
            (LinkState::Relaying, LinkAction::AwaitMessages)
        },
        (LinkState::Registering, LinkEvent::RegistrationSent) => (LinkState::Relaying, LinkAction::AwaitMessages),
        (LinkState::Registering, LinkEvent::RegistrationFailed) => (
            LinkState::Connecting { failures: 0 },
            LinkAction::Connect,
        ),
        (LinkState::Relaying, LinkEvent::UplinkReceived) => (LinkState::Relaying, LinkAction::ForwardToServer),
        (LinkState::Relaying, LinkEvent::UplinkLagged(_)) => (LinkState::Relaying, LinkAction::AwaitMessages),
        (LinkState::Relaying, LinkEvent::UplinkClosed) => (LinkState::Stopped, LinkAction::Exit),
        (LinkState::Relaying, LinkEvent::DownlinkReceived) => (LinkState::Relaying, LinkAction::BroadcastToLocal),
        (LinkState::Relaying, LinkEvent::Delivered) => (LinkState::Relaying, LinkAction::AwaitMessages),
        (LinkState::Relaying, LinkEvent::UplinkWriteFailed) => (
            LinkState::Connecting { failures: 0 },
            LinkAction::RetryAfterSecs(3),
        ),
        (LinkState::Relaying, LinkEvent::DownlinkFailed) => (
            LinkState::Connecting { failures: 0 },
            LinkAction::RetryAfterSecs(3),
        ),
        (LinkState::Relaying, LinkEvent::DownlinkClosed) => (
            LinkState::Connecting { failures: 0 },
            LinkAction::RetryAfterSecs(3),
        ),
        (LinkState::Stopped, _) => (LinkState::Stopped, LinkAction::Exit),
        _ => (state, LinkAction::AwaitMessages),
    }
}

/// The state a connection task starts in.
pub fn initial_link_state() -> (r: LinkState)
    ensures
        r == (LinkState::Connecting { failures: 0 }),
{
    LinkState::Connecting { failures: 0 }
}

/// One step of the link from an agent to a server (see `link_transition`).
pub fn link_step(state: LinkState, event: LinkEvent) -> (r: (LinkState, LinkAction))
    ensures
        r == link_transition(state, event),
{
    match (state, event) {
        (LinkState::Connecting { failures }, LinkEvent::ConnectFailed) => {
            let n: u32 = if failures < u32::MAX {
                failures + 1
            } else {
                failures
            };
            let wait: u64 = if n < 5 {
                2
            } else {
                5
            };
            (LinkState::Connecting { failures: n }, LinkAction::RetryAfterSecs(wait))
        },
        (LinkState::Connecting { .. }, LinkEvent::Connected { allow_task }) => {
            if allow_task == Some(true) {
                (LinkState::Registering, LinkAction::SendRegistration)
            } else {
                (LinkState::Relaying, LinkAction::AwaitMessages)
            }
        },
        (LinkState::Registering, LinkEvent::RegistrationSent) => (LinkState::Relaying, LinkAction::AwaitMessages),
        (LinkState::Registering, LinkEvent::RegistrationFailed) => (
            LinkState::Connecting { failures: 0 },
            LinkAction::Connect,
        ),
        (LinkState::Relaying, LinkEvent::UplinkReceived) => (LinkState::Relaying, LinkAction::ForwardToServer),
        (LinkState::Relaying, LinkEvent::UplinkLagged(_)) => (LinkState::Relaying, LinkAction::AwaitMessages),
        (LinkState::Relaying, LinkEvent::UplinkClosed) => (LinkState::Stopped, LinkAction::Exit),
        (LinkState::Relaying, LinkEvent::DownlinkReceived) => (LinkState::Relaying, LinkAction::BroadcastToLocal),
        (LinkState::Relaying, LinkEvent::Delivered) => (LinkState::Relaying, LinkAction::AwaitMessages),
        (LinkState::Relaying, LinkEvent::UplinkWriteFailed) => (
            LinkState::Connecting { failures: 0 },
            LinkAction::RetryAfterSecs(3),
        ),
        (LinkState::Relaying, LinkEvent::DownlinkFailed) => (
            LinkState::Connecting { failures: 0 },
            LinkAction::RetryAfterSecs(3),
        ),
        (LinkState::Relaying, LinkEvent::DownlinkClosed) => (
            LinkState::Connecting { failures: 0 },
            LinkAction::RetryAfterSecs(3),
        ),
        (LinkState::Stopped, _) => (LinkState::Stopped, LinkAction::Exit),
        _ => (state, LinkAction::AwaitMessages),
    }
}

/// The link stops only when the local sending side closes while relaying,
/// and once stopped it stays stopped and only exits.
pub proof fn lemma_link_stops_only_on_uplink_close(state: LinkState, event: LinkEvent)
    ensures
        link_transition(state, event).0 == LinkState::Stopped <==> (state == LinkState::Stopped || (state
            == LinkState::Relaying && event == LinkEvent::UplinkClosed)),
        link_transition(state, event).1 == LinkAction::Exit <==> link_transition(state, event).0
            == LinkState::Stopped,
{
}

/// Every wait before a new connection attempt lasts between 2 and 5 seconds,
/// and failed attempts of one round wait 2 seconds until the fifth.
pub proof fn lemma_link_retry_wait_bounded(state: LinkState, event: LinkEvent)
    ensures
        link_transition(state, event).1 matches LinkAction::RetryAfterSecs(s) ==> 2 <= s <= 5,
        (state matches LinkState::Connecting { failures } && failures < 4 && event == LinkEvent::ConnectFailed)
            ==> link_transition(state, event).1 == LinkAction::RetryAfterSecs(2),
{
}

/// A broken connection, from either side, always leads back to connecting
/// with a fresh count of failures.
pub proof fn lemma_link_reconnects_after_break(event: LinkEvent)
    requires
        event == LinkEvent::UplinkWriteFailed || event == LinkEvent::DownlinkFailed || event
            == LinkEvent::DownlinkClosed,
    ensures
        link_transition(LinkState::Relaying, event) == (
            LinkState::Connecting { failures: 0 },
            LinkAction::RetryAfterSecs(3),
        ),
{
}

/// The error for a server name that has no link.
pub open spec fn unknown_server_message(name: Seq<char>) -> Seq<char> {
    "Server not found: "@ + name
}

/// The error for a server name that has no link.
pub fn unknown_server_error(server_name: &str) -> (r: String)
    ensures
        r@ == unknown_server_message(server_name@),
{
    String::from_str("Server not found: ").concat(server_name)
}

} // verus!
