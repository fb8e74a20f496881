//! Messages between beings, and where they come from.
use vstd::prelude::*;

use crate::text::{concat3, concat4, copy_of};

verus! {

/// What a being is told.
#[derive(Debug, Clone, PartialEq, Eq)]
pub enum BusMessage {
    /// Something said.
    Text {
        /// What is said.
        body: String,
    },
    /// A latent thought with its rendering as text.
    Latent {
        /// The rendering.
        text_shadow: String,
    },
    /// The emotional state of a sibling.
    EmotionPulse,
    /// Progress of a task.
    TaskEvent {
        /// The task.
        task_id: String,
    },
    /// An approval was granted.
    ResumeApproval {
        /// The approval.
        approval_id: String,
    },
}

impl BusMessage {
    /// A message that says `body`.
    pub fn text(body: &str) -> (r: Self)
        ensures
            r is Text,
            r->body@ == body@,
    {
        BusMessage::Text { body: copy_of(body) }
    }

    /// What the message says in words.
    pub open spec fn words(self) -> Option<Seq<char>> {
        match self {
            BusMessage::Text { body } => Some(body@),
            BusMessage::Latent { text_shadow } => Some(text_shadow@),
            _ => None,
        }
    }

    /// What the message says in words: the text of a text, the rendering of a latent
    /// thought, nothing for a signal.
    pub fn spoken(&self) -> (r: Option<&str>)
        ensures
            match r {
                Some(s) => self.words() == Some(s@),
                None => self.words() is None,
            },
    {
        match self {
            BusMessage::Text { body } => Some(body.as_str()),
            BusMessage::Latent { text_shadow } => Some(text_shadow.as_str()),
            _ => None,
        }
    }
}

/// Is the message content to be remembered? What is said is; pulses, task events and
/// approvals are signals.
pub fn should_remember(message: &BusMessage) -> (r: bool)
    ensures
        r == (message.words() is Some),
{
    message.spoken().is_some()
}

/// Where a message came from.
#[derive(Debug, Clone, PartialEq, Eq)]
pub struct MessageOrigin {
    /// The channel.
    pub channel_id: String,
    /// The conversation within the channel.
    pub conversation: String,
    /// The sender within the channel.
    pub sender: String,
}

impl MessageOrigin {
    /// An origin.
    pub fn new(channel_id: &str, conversation: &str, sender: &str) -> (r: Self)
        ensures
            r.channel_id@ == channel_id@,
            r.conversation@ == conversation@,
            r.sender@ == sender@,
    {
        MessageOrigin {
            channel_id: copy_of(channel_id),
            conversation: copy_of(conversation),
            sender: copy_of(sender),
        }
    }

    /// Where a reply goes: back into the conversation.
    pub fn reply_target(&self) -> (r: &str)
        ensures
            r@ == self.conversation@,
    {
        self.conversation.as_str()
    }

    /// The tag that keeps the memories of a conversation apart.
    pub open spec fn tag(self) -> Seq<char> {
        "session:"@ + self.channel_id@ + ":"@ + self.conversation@
    }

    /// The tag that keeps the memories of a conversation apart.
    pub fn session_tag(&self) -> (r: String)
        ensures
            r@ == self.tag(),
    {
        concat4("session:", self.channel_id.as_str(), ":", self.conversation.as_str())
    }

    /// The key of the conversation's short-term memory.
    pub open spec fn key(self) -> Seq<char> {
        self.channel_id@ + ":"@ + self.conversation@
    }

    /// The key of the conversation's short-term memory.
    pub fn conversation_key(&self) -> (r: String)
        ensures
            r@ == self.key(),
    {
        concat3(self.channel_id.as_str(), ":", self.conversation.as_str())
    }

    /// A copy of the origin.
    pub fn copy(&self) -> (r: Self)
        ensures
            r.channel_id@ == self.channel_id@,
            r.conversation@ == self.conversation@,
            r.sender@ == self.sender@,
    {
        MessageOrigin::new(
            self.channel_id.as_str(),
            self.conversation.as_str(),
            self.sender.as_str(),
        )
    }
}

/// Where a reply goes: into the conversation that the message came from, else to the
/// target that was configured.
pub open spec fn target_of(origin: Option<MessageOrigin>, configured: Option<String>) -> Option<
    Seq<char>,
> {
    match origin {
        Some(o) => Some(o.conversation@),
        None => match configured {
            Some(t) => Some(t@),
            None => None,
        },
    }
}

/// Where a reply goes: into the conversation that the message came from, else to the
/// target that was configured.
pub fn reply_target(origin: &Option<MessageOrigin>, configured: &Option<String>) -> (r: Option<
    String,
>)
    ensures
        match r {
            Some(t) => target_of(*origin, *configured) == Some(t@),
            None => target_of(*origin, *configured) is None,
        },
{
    match origin {
        Some(o) => Some(copy_of(o.reply_target())),
        None => match configured {
            Some(t) => Some(copy_of(t.as_str())),
            None => None,
        },
    }
}

// ---------------------------------------------------------------------------
// Laws
// ---------------------------------------------------------------------------

/// Conversations of one channel that differ have different keys and different tags.
pub proof fn law_conversations_are_kept_apart(a: MessageOrigin, b: MessageOrigin)
    requires
        a.channel_id@ == b.channel_id@,
        a.conversation@ != b.conversation@,
    ensures
        a.key() != b.key(),
        a.tag() != b.tag(),
{
    let head = a.channel_id@ + ":"@;
    if a.key() == b.key() {
        assert(a.conversation@ =~= a.key().skip(head.len() as int));
        assert(b.conversation@ =~= b.key().skip(head.len() as int));
    }
    let long = "session:"@ + a.channel_id@ + ":"@;
    if a.tag() == b.tag() {
        assert(a.conversation@ =~= a.tag().skip(long.len() as int));
        assert(b.conversation@ =~= b.tag().skip(long.len() as int));
    }
}

/// Channels that differ have different keys for a conversation, where neither of their
/// names holds a colon.
pub proof fn law_channels_are_kept_apart(a: MessageOrigin, b: MessageOrigin)
    requires
        a.channel_id@ != b.channel_id@,
        !a.channel_id@.contains(':'),
        !b.channel_id@.contains(':'),
    ensures
        a.key() != b.key(),
{
    reveal_strlit(":");
    let x = a.channel_id@;
    let y = b.channel_id@;
    if a.key() == b.key() {
        assert(a.key()[x.len() as int] == ':');
        assert(b.key()[y.len() as int] == ':');
        if x.len() < y.len() {
            assert(b.key()[x.len() as int] == y[x.len() as int]);
            assert(y.contains(':'));
        } else if y.len() < x.len() {
            assert(a.key()[y.len() as int] == x[y.len() as int]);
            assert(x.contains(':'));
        } else {
            assert(x =~= a.key().take(x.len() as int));
            assert(y =~= b.key().take(y.len() as int));
        }
    }
}

/// A reply goes back to where the message came from; only where that is not known does it go
/// where replies are configured to go.
pub proof fn law_reply_goes_back(origin: Option<MessageOrigin>, configured: Option<String>)
    ensures
        origin is Some ==> target_of(origin, configured) == Some(origin->Some_0.conversation@),
        origin is None && configured is Some ==> target_of(origin, configured) == Some(
            configured->Some_0@,
        ),
        origin is None && configured is None ==> target_of(origin, configured) is None,
{
}

/// What is said, aloud or as a rendering of a thought, is the words of a message; a signal has
/// none.
pub proof fn law_words_are_what_is_said(m: BusMessage)
    ensures
        m is Text ==> m.words() == Some(m->body@),
        m is Latent ==> m.words() == Some(m->text_shadow@),
        !(m is Text) && !(m is Latent) ==> m.words() is None,
{
}

/// The messages of one conversation share a key and a tag, whoever sends them.
pub proof fn law_a_conversation_has_one_key(a: MessageOrigin, b: MessageOrigin)
    requires
        a.channel_id@ == b.channel_id@,
        a.conversation@ == b.conversation@,
    ensures
        a.key() == b.key(),
        a.tag() == b.tag(),
{
}

} // verus!
