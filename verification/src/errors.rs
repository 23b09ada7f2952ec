use vstd::prelude::*;

verus! {

/// Error taxonomy of the broker and its surrounding services.
#[derive(Debug, Clone, PartialEq, Eq, Structural)]
pub enum RmcsError {
    /// Bad JSON, or a known discriminator was required and missing.
    ParseError,
    /// A response or close arrived for a session id not in the registry.
    UnknownSession,
    /// A downstream task dropped its channel before answering.
    ChannelClosed,
    /// A value could not be encoded for the wire.
    SerialisationError,
    /// An event session was requested with an unrecognised event tag.
    UnknownEvent,
    /// An HTTP handler addressed an agent with no live connection.
    AgentNotConnected,
    /// The durable store failed.
    StorageError,
    /// Required configuration was absent at startup.
    ConfigError,
}

impl RmcsError {
    /// A short stable description, for logs and plaintext HTTP reasons.
    pub fn describe(&self) -> (r: &'static str)
        ensures
            self is AgentNotConnected ==> r@ == "robot not connected"@,
    {
        match self {
            RmcsError::ParseError => "parse error",
            RmcsError::UnknownSession => "unknown session",
            RmcsError::ChannelClosed => "channel closed",
            RmcsError::SerialisationError => "serialisation error",
            RmcsError::UnknownEvent => "unknown event type",
            RmcsError::AgentNotConnected => "robot not connected",
            RmcsError::StorageError => "storage error",
            RmcsError::ConfigError => "configuration error",
        }
    }
}

} // verus!
