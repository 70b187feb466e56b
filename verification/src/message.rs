//! The message value that flows through the relay.

use vstd::prelude::*;

verus! {

/// One chat message: who wrote it and what they said.
#[derive(Debug, PartialEq, Eq)]
pub struct Message {
    pub author: String,
    pub text: String,
}

/// The mathematical value of a [`Message`]: both fields as character sequences.
pub struct MessageView {
    pub author: Seq<char>,
    pub text: Seq<char>,
}

impl View for Message {
    type V = MessageView;

    open spec fn view(&self) -> MessageView {
        MessageView { author: self.author@, text: self.text@ }
    }
}

impl Message {
    /// An equal copy of the message.
    pub fn duplicate(&self) -> (r: Message)
        ensures
            r@ == self@,
    {
        Message { author: self.author.clone(), text: self.text.clone() }
    }
}

/// A published message stamped with the numeric id of the session that sent
/// it, so that delivery can filter a sender's own messages out.
pub struct Envelope {
    pub origin: usize,
    pub msg: Message,
}

/// The mathematical value of an [`Envelope`].
pub struct EnvelopeView {
    pub origin: usize,
    pub msg: MessageView,
}

impl View for Envelope {
    type V = EnvelopeView;

    open spec fn view(&self) -> EnvelopeView {
        EnvelopeView { origin: self.origin, msg: self.msg@ }
    }
}

impl Envelope {
    /// An equal copy of the envelope.
    pub fn duplicate(&self) -> (r: Envelope)
        ensures
            r@ == self@,
    {
        Envelope { origin: self.origin, msg: self.msg.duplicate() }
    }
}

} // verus!
