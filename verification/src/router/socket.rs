//! What a websocket connection does with the frames it receives and with
//! the messages queued for it.
use vstd::prelude::*;

verus! {

/// The kinds of frame a websocket receives.
#[derive(Clone, Copy, Debug, PartialEq, Eq, Structural)]
pub enum FrameKind {
    Text,
    Binary,
    Ping,
    Pong,
    Close,
}

/// What the connection queues for a received frame.
#[derive(Clone, Copy, Debug, PartialEq, Eq, Structural)]
pub enum FrameAction {
    /// Queue the frame, to be sent back as it is.
    Forward,
    /// Queue the end of the connection.
    Kill,
}

/// A closing frame ends the connection; any other frame is queued as it is.
pub fn incoming_frame_action(kind: FrameKind) -> (res: FrameAction)
    ensures
        res == (if kind == FrameKind::Close { FrameAction::Kill } else { FrameAction::Forward }),
{
    match kind {
        FrameKind::Close => FrameAction::Kill,
        _ => FrameAction::Forward,
    }
}

/// The kinds of message queued for a connection.
#[derive(Clone, Copy, Debug, PartialEq, Eq, Structural)]
pub enum QueuedKind {
    /// A websocket frame.
    WebsocketMessage,
    /// An event.
    Message,
    /// The end of the connection.
    Kill,
}

/// What the connection does with a queued message.
#[derive(Clone, Copy, Debug, PartialEq, Eq, Structural)]
pub enum QueuedAction {
    /// Send the frame.
    SendFrame,
    /// Send the event as JSON text.
    SendJson,
    /// Take the connection's channel out of the registry and go on.
    Remove,
    /// Take the connection's channel out of the registry and stop.
    RemoveAndStop,
}

/// A frame is sent, an event is sent as JSON, and the end of the connection
/// takes the channel out of the registry; `stop_after_kill` says whether
/// the connection then stops reading its queue.
pub fn queued_action(kind: QueuedKind, stop_after_kill: bool) -> (res: QueuedAction)
    ensures
        kind == QueuedKind::WebsocketMessage ==> res == QueuedAction::SendFrame,
        kind == QueuedKind::Message ==> res == QueuedAction::SendJson,
        kind == QueuedKind::Kill ==> res == (if stop_after_kill { QueuedAction::RemoveAndStop } else { QueuedAction::Remove }),
{
    match kind {
        QueuedKind::WebsocketMessage => QueuedAction::SendFrame,
        QueuedKind::Message => QueuedAction::SendJson,
        QueuedKind::Kill => if stop_after_kill { QueuedAction::RemoveAndStop } else { QueuedAction::Remove },
    }
}

} // verus!
