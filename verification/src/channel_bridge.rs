//! From the channels to the bus.
//!
//! What arrives on a channel becomes a message on the bus, together with its origin,
//! so that the reply finds its way back.
use vstd::prelude::*;

use crate::message::{BusMessage, MessageOrigin};

verus! {

/// What arrives on a channel.
#[derive(Debug, Clone, PartialEq, Eq)]
pub struct InboundEnvelope {
    /// The channel.
    pub channel_id: String,
    /// The conversation within the channel.
    pub conversation: String,
    /// The sender within the channel.
    pub sender: String,
    /// What is said.
    pub body: String,
}

/// The message that an envelope carries.
pub fn envelope_to_bus_message(envelope: InboundEnvelope) -> (r: BusMessage)
    ensures
        r is Text,
        r->body@ == envelope.body@,
{
    BusMessage::Text { body: envelope.body }
}

/// The origin of an envelope.
pub fn envelope_origin(envelope: &InboundEnvelope) -> (r: MessageOrigin)
    ensures
        r.channel_id@ == envelope.channel_id@,
        r.conversation@ == envelope.conversation@,
        r.sender@ == envelope.sender@,
{
    MessageOrigin::new(
        envelope.channel_id.as_str(),
        envelope.conversation.as_str(),
        envelope.sender.as_str(),
    )
}

/// What is put on the bus for an envelope: its message and its origin. The origin is
/// never dropped.
pub fn publish_envelope(envelope: InboundEnvelope) -> (r: (BusMessage, MessageOrigin))
    ensures
        r.0 is Text,
        r.0->body@ == envelope.body@,
        r.1.channel_id@ == envelope.channel_id@,
        r.1.conversation@ == envelope.conversation@,
        r.1.sender@ == envelope.sender@,
{
    let origin = envelope_origin(&envelope);
    (envelope_to_bus_message(envelope), origin)
}

} // verus!
