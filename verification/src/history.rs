//! The short-term memory of conversations.
//!
//! Each conversation keeps a window of its last messages, which precedes the next question
//! to the model. The window is compacted when it grows too long. After a restart it is
//! filled again from the memories that the turns left.
use vstd::prelude::*;

use crate::llm::{copy_messages, messages_view, plain_message, LlmMessage, LlmRole, MessageView};
use crate::message::MessageOrigin;
use crate::text::{
    byte_len, byte_prefix, concat2, copy_of, decimal, fit_bytes, is_blank, is_digit,
    law_numeral_is_read_back, lemma_byte_prefix, lemma_decimal_len, lemma_decimal_value,
    lemma_trimmed_blank, longer_than_bytes, parse_unsigned, same, trim, trimmed, unsigned_value,
    views,
};

verus! {

/// The messages of a window, where nothing else is configured.
pub const HISTORY_MAX_MESSAGES: usize = 20;

/// The bytes of a message in a window, where nothing else is configured.
pub const HISTORY_MAX_CHARS_PER_MSG: usize = 2000;

/// The fewest bytes of a message that may be configured.
pub const HISTORY_MAX_CHARS_MIN: usize = 100;

/// The source of the memories that turns leave of what was said.
pub const CHAT_HISTORY_SOURCE: &'static str = "chat_history";

/// The tag of what a user said.
pub const CHAT_USER_TAG: &'static str = "chat:user";

/// The tag of what the agent said.
pub const CHAT_ASSISTANT_TAG: &'static str = "chat:assistant";

/// The bytes of a message that a setting asks for: the number that it writes, unless that
/// is too small, else the default.
pub open spec fn history_setting(value: Option<Seq<char>>) -> nat {
    match value {
        Some(s) => match unsigned_value(trimmed(s), usize::MAX as nat) {
            Some(n) => if n >= HISTORY_MAX_CHARS_MIN {
                n
            } else {
                HISTORY_MAX_CHARS_PER_MSG as nat
            },
            None => HISTORY_MAX_CHARS_PER_MSG as nat,
        },
        None => HISTORY_MAX_CHARS_PER_MSG as nat,
    }
}

/// Reads the bytes of a message from the value of its setting.
pub fn history_max_chars_per_msg(value: Option<&str>) -> (r: usize)
    ensures
        r == history_setting(
            match value {
                Some(s) => Some(s@),
                None => None,
            },
        ),
{
    match value {
        Some(s) => match parse_unsigned(trim(s).as_str(), usize::MAX as u64) {
            Some(n) => if n >= HISTORY_MAX_CHARS_MIN as u64 {
                n as usize
            } else {
                HISTORY_MAX_CHARS_PER_MSG
            },
            None => HISTORY_MAX_CHARS_PER_MSG,
        },
        None => HISTORY_MAX_CHARS_PER_MSG,
    }
}

/// A message as a window keeps it: as much as fits into `max` bytes, with an ellipsis
/// where something is missing.
pub open spec fn shortened(text: Seq<char>, max: nat) -> Seq<char> {
    if byte_len(text) <= max {
        text
    } else {
        byte_prefix(text, max) + "…"@
    }
}

/// A message as a window keeps it.
pub fn truncate_for_history(text: &str, max: usize) -> (r: String)
    ensures
        r@ == shortened(text@, max as nat),
{
    if longer_than_bytes(text, max) {
        concat2(fit_bytes(text, max).as_str(), "…")
    } else {
        copy_of(text)
    }
}

/// The messages of the next question: the system prompt, the window, and what the user
/// says.
pub fn build_message_stack(system: &str, history: &[LlmMessage], user: &str) -> (r: Vec<LlmMessage>)
    ensures
        messages_view(r@) == seq![plain_message(LlmRole::System, system@)] + messages_view(
            history@,
        ) + seq![plain_message(LlmRole::User, user@)],
{
    let mut out: Vec<LlmMessage> = Vec::new();
    out.push(LlmMessage::system(system));
    let mut i: usize = 0;
    while i < history.len()
        invariant
            i <= history@.len(),
            out@.len() == i + 1,
            out@[0]@ == plain_message(LlmRole::System, system@),
            forall|k: int| 0 <= k < i ==> out@[k + 1]@ == (#[trigger] history@[k])@,
        decreases history@.len() - i,
    {
        out.push(history[i].copy());
        i += 1;
    }
    out.push(LlmMessage::user(user));
    proof {
        let want = seq![plain_message(LlmRole::System, system@)] + messages_view(history@)
            + seq![plain_message(LlmRole::User, user@)];
        assert forall|k: int| 0 <= k < want.len() implies messages_view(out@)[k] == want[k] by {
            if 0 < k && k <= history@.len() {
                assert(history@[k - 1]@ == out@[k]@);
            }
        }
        assert(messages_view(out@) =~= want);
    }
    out
}

// ---------------------------------------------------------------------------
// Compaction
// ---------------------------------------------------------------------------

/// How a window is kept short.
#[derive(Debug, Clone, Copy, PartialEq, Eq, Structural)]
pub struct CompactionConfig {
    /// More messages than this are too many; zero means that none are.
    pub max_messages: usize,
    /// So many messages at the beginning are never dropped.
    pub protect_first_n: usize,
    /// So many messages at the end are never dropped.
    pub protect_last_n: usize,
}

impl CompactionConfig {
    /// The messages of a window, where nothing else is configured.
    pub const DEFAULT_MAX_MESSAGES: usize = 20;

    /// Reads the configuration from the values of its settings. What is missing or no
    /// number has its default: a window of the default length whose end is protected.
    pub fn from_settings(max: Option<&str>, first: Option<&str>, last: Option<&str>) -> (r: Self)
        ensures
            r.max_messages == number_or(max, Self::DEFAULT_MAX_MESSAGES as nat),
            r.protect_first_n == number_or(first, 0),
            r.protect_last_n == number_or(last, Self::DEFAULT_MAX_MESSAGES as nat),
    {
        CompactionConfig {
            max_messages: read_number(max, Self::DEFAULT_MAX_MESSAGES),
            protect_first_n: read_number(first, 0),
            protect_last_n: read_number(last, Self::DEFAULT_MAX_MESSAGES),
        }
    }
}

impl Default for CompactionConfig {
    fn default() -> (r: Self)
        ensures
            r.max_messages == HISTORY_MAX_MESSAGES,
            r.protect_first_n == 0,
            r.protect_last_n == HISTORY_MAX_MESSAGES,
    {
        CompactionConfig {
            max_messages: HISTORY_MAX_MESSAGES,
            protect_first_n: 0,
            protect_last_n: HISTORY_MAX_MESSAGES,
        }
    }
}

/// The number that a setting writes, or a default.
pub open spec fn number_or(value: Option<&str>, default: nat) -> nat {
    match value {
        Some(s) => match unsigned_value(trimmed(s@), usize::MAX as nat) {
            Some(n) => n,
            None => default,
        },
        None => default,
    }
}

fn read_number(value: Option<&str>, default: usize) -> (r: usize)
    ensures
        r == number_or(value, default as nat),
{
    match value {
        Some(s) => match parse_unsigned(trim(s).as_str(), usize::MAX as u64) {
            Some(n) => n as usize,
            None => default,
        },
        None => default,
    }
}

/// How many messages of a window of `len` may be dropped.
pub open spec fn evictable(len: nat, c: CompactionConfig) -> nat {
    if c.protect_first_n + c.protect_last_n < len {
        (len - c.protect_first_n - c.protect_last_n) as nat
    } else {
        0
    }
}

/// Is a window of `len` messages too long?
pub open spec fn too_long(len: nat, c: CompactionConfig) -> bool {
    c.max_messages > 0 && len > c.max_messages
}

/// How many messages are dropped: as many as are too many, as far as they may be.
pub open spec fn eviction(len: nat, c: CompactionConfig) -> nat {
    if !too_long(len, c) {
        0
    } else if evictable(len, c) < len - c.max_messages {
        evictable(len, c)
    } else {
        (len - c.max_messages) as nat
    }
}

/// A window from which the oldest messages that may be dropped are dropped.
pub open spec fn evicted(window: Seq<MessageView>, c: CompactionConfig) -> Seq<MessageView> {
    let n = eviction(window.len(), c);
    if n == 0 {
        window
    } else {
        window.take(c.protect_first_n as int) + window.skip(c.protect_first_n + n)
    }
}

/// A window in which one message stands for all that may be dropped.
pub open spec fn collapsed(
    window: Seq<MessageView>,
    c: CompactionConfig,
    summary: MessageView,
) -> Seq<MessageView> {
    window.take(c.protect_first_n as int).push(summary) + window.skip(
        window.len() - c.protect_last_n,
    )
}

/// A window after compaction. A summary takes the place of all that may be dropped;
/// without one the oldest messages are dropped, as many as have to be.
pub open spec fn compacted(
    window: Seq<MessageView>,
    c: CompactionConfig,
    summary: Option<MessageView>,
) -> Seq<MessageView> {
    if too_long(window.len(), c) && evictable(window.len(), c) > 0 && summary is Some {
        collapsed(window, c, summary->Some_0)
    } else {
        evicted(window, c)
    }
}

/// The messages that a summary would stand for: none, unless the window is too long.
pub fn compaction_zone(len: usize, c: &CompactionConfig) -> (r: Option<(usize, usize)>)
    ensures
        match r {
            Some((from, to)) => too_long(len as nat, *c) && evictable(len as nat, *c) > 0 && from
                == c.protect_first_n && to == len - c.protect_last_n && from < to <= len,
            None => !too_long(len as nat, *c) || evictable(len as nat, *c) == 0,
        },
{
    if c.max_messages == 0 || len <= c.max_messages {
        return None;
    }
    if c.protect_last_n >= len || c.protect_first_n >= len - c.protect_last_n {
        return None;
    }
    Some((c.protect_first_n, len - c.protect_last_n))
}

/// Keeps a window short. `summary` is what a summariser made of the messages of
/// [`compaction_zone`], if there is one.
pub fn compact_history(
    window: &mut Vec<LlmMessage>,
    c: &CompactionConfig,
    summary: Option<LlmMessage>,
)
    ensures
        messages_view(final(window)@) == compacted(
            messages_view(old(window)@),
            *c,
            match summary {
                Some(m) => Some(m@),
                None => None,
            },
        ),
{
    let ghost start = messages_view(window@);
    let len: usize = window.len();
    let (from, to) = match compaction_zone(len, c) {
        Some(zone) => zone,
        None => {
            assert(eviction(len as nat, *c) == 0);
            return;
        },
    };
    match summary {
        Some(m) => {
            let ghost s = m@;
            let tail = window.split_off(to);
            window.truncate(from);
            window.push(m);
            let mut rest = tail;
            window.append(&mut rest);
            assert(messages_view(window@) =~= collapsed(start, *c, s));
        },
        None => {
            let too_many: usize = len - c.max_messages;
            let n: usize = if to - from < too_many {
                to - from
            } else {
                too_many
            };
            let mut rest = window.split_off(from + n);
            window.truncate(from);
            window.append(&mut rest);
            assert(messages_view(window@) =~= evicted(start, *c));
        },
    }
}

// ---------------------------------------------------------------------------
// The windows
// ---------------------------------------------------------------------------

/// The windows of all conversations.
#[derive(Debug)]
pub struct ConversationHistory {
    entries: Vec<(String, Vec<LlmMessage>)>,
}

/// The first window under `key`.
pub open spec fn window_at(entries: Seq<(Seq<char>, Seq<MessageView>)>, key: Seq<char>) -> Seq<
    MessageView,
>
    decreases entries.len(),
{
    if entries.len() == 0 {
        Seq::empty()
    } else if entries[0].0 == key {
        entries[0].1
    } else {
        window_at(entries.drop_first(), key)
    }
}

impl ConversationHistory {
    closed spec fn pairs(self) -> Seq<(Seq<char>, Seq<MessageView>)> {
        self.entries@.map_values(|e: (String, Vec<LlmMessage>)| (e.0@, messages_view(e.1@)))
    }

    /// The window of a conversation.
    pub closed spec fn window(self, key: Seq<char>) -> Seq<MessageView> {
        window_at(self.pairs(), key)
    }

    /// No windows.
    pub fn new() -> (r: Self)
        ensures
            forall|key: Seq<char>| #[trigger] r.window(key) == Seq::<MessageView>::empty(),
    {
        let r = ConversationHistory { entries: Vec::new() };
        assert(r.pairs() =~= Seq::<(Seq<char>, Seq<MessageView>)>::empty());
        r
    }

    fn position(&self, key: &str) -> (r: Option<usize>)
        ensures
            match r {
                Some(i) => i < self.entries@.len() && self.entries@[i as int].0@ == key@
                    && forall|k: int|
                    0 <= k < i ==> (#[trigger] self.entries@[k]).0@ != key@,
                None => forall|k: int|
                    0 <= k < self.entries@.len() ==> (#[trigger] self.entries@[k]).0@ != key@,
            },
    {
        let mut i: usize = 0;
        while i < self.entries.len()
            invariant
                i <= self.entries@.len(),
                forall|k: int| 0 <= k < i ==> (#[trigger] self.entries@[k]).0@ != key@,
            decreases self.entries@.len() - i,
        {
            if same(self.entries[i].0.as_str(), key) {
                return Some(i);
            }
            i += 1;
        }
        None
    }

    /// The window of a conversation, oldest message first.
    pub fn history_for(&self, key: &str) -> (r: Vec<LlmMessage>)
        ensures
            messages_view(r@) == self.window(key@),
    {
        match self.position(key) {
            Some(i) => {
                proof {
                    lemma_window_at(self.pairs(), key@, i as int);
                }
                copy_messages(self.entries[i].1.as_slice())
            },
            None => {
                proof {
                    lemma_no_window(self.pairs(), key@);
                }
                let r: Vec<LlmMessage> = Vec::new();
                assert(messages_view(r@) =~= Seq::<MessageView>::empty());
                r
            },
        }
    }

    /// Adds what the user said and what the agent answered to the window of a conversation,
    /// and keeps it short. An exchange of which either part is blank is not kept. `max` is
    /// the size of a message in bytes.
    pub fn append_history(
        &mut self,
        key: &str,
        user_text: &str,
        assistant_text: &str,
        max: usize,
        c: &CompactionConfig,
    )
        ensures
            final(self).window(key@) == appended(
                old(self).window(key@),
                user_text@,
                assistant_text@,
                max as nat,
                *c,
            ),
            forall|other: Seq<char>|
                other != key@ ==> #[trigger] final(self).window(other) == old(self).window(other),
    {
        let ghost start = *self;
        let user = trim(user_text);
        let assistant = trim(assistant_text);
        if user.as_str().is_empty() || assistant.as_str().is_empty() {
            return;
        }
        let user_message = LlmMessage::user(truncate_for_history(user.as_str(), max).as_str());
        let assistant_message = LlmMessage::assistant(
            truncate_for_history(assistant.as_str(), max).as_str(),
        );
        let ghost u = user_message@;
        let ghost a = assistant_message@;
        match self.position(key) {
            Some(i) => {
                proof {
                    lemma_window_at(self.pairs(), key@, i as int);
                }
                let mut window = copy_messages(self.entries[i].1.as_slice());
                let ghost before = messages_view(window@);
                window.push(user_message);
                window.push(assistant_message);
                assert(messages_view(window@) =~= before.push(u).push(a));
                compact_history(&mut window, c, None);
                let name = copy_of(key);
                let ghost after = messages_view(window@);
                self.entries.set(i, (name, window));
                proof {
                    assert(self.pairs() =~= start.pairs().update(i as int, (key@, after)));
                    lemma_window_at(self.pairs(), key@, i as int);
                    assert forall|other: Seq<char>| other != key@ implies #[trigger] self.window(
                        other,
                    ) == start.window(other) by {
                        lemma_window_update(start.pairs(), key@, i as int, after, other);
                    }
                }
            },
            None => {
                proof {
                    lemma_no_window(self.pairs(), key@);
                }
                let mut window: Vec<LlmMessage> = Vec::new();
                window.push(user_message);
                window.push(assistant_message);
                assert(messages_view(window@) =~= Seq::<MessageView>::empty().push(u).push(a));
                compact_history(&mut window, c, None);
                let ghost after = messages_view(window@);
                self.entries.push((copy_of(key), window));
                proof {
                    assert(self.pairs() =~= start.pairs().push((key@, after)));
                    lemma_window_push(start.pairs(), key@, after, key@);
                    assert forall|other: Seq<char>| other != key@ implies #[trigger] self.window(
                        other,
                    ) == start.window(other) by {
                        lemma_window_push(start.pairs(), key@, after, other);
                    }
                }
            },
        }
    }
}

proof fn lemma_window_at(
    entries: Seq<(Seq<char>, Seq<MessageView>)>,
    key: Seq<char>,
    i: int,
)
    requires
        0 <= i < entries.len(),
        entries[i].0 == key,
        forall|k: int| 0 <= k < i ==> (#[trigger] entries[k]).0 != key,
    ensures
        window_at(entries, key) == entries[i].1,
    decreases entries.len(),
{
    if i > 0 {
        let rest = entries.drop_first();
        assert(entries[0].0 != key);
        assert forall|k: int| 0 <= k < i - 1 implies (#[trigger] rest[k]).0 != key by {
            assert(rest[k] == entries[k + 1]);
        }
        lemma_window_at(rest, key, i - 1);
    }
}

proof fn lemma_no_window(entries: Seq<(Seq<char>, Seq<MessageView>)>, key: Seq<char>)
    requires
        forall|k: int| 0 <= k < entries.len() ==> (#[trigger] entries[k]).0 != key,
    ensures
        window_at(entries, key) == Seq::<MessageView>::empty(),
    decreases entries.len(),
{
    if entries.len() > 0 {
        let rest = entries.drop_first();
        assert(entries[0].0 != key);
        assert forall|k: int| 0 <= k < rest.len() implies (#[trigger] rest[k]).0 != key by {
            assert(rest[k] == entries[k + 1]);
        }
        lemma_no_window(rest, key);
    }
}

proof fn lemma_window_update(
    entries: Seq<(Seq<char>, Seq<MessageView>)>,
    key: Seq<char>,
    i: int,
    after: Seq<MessageView>,
    other: Seq<char>,
)
    requires
        0 <= i < entries.len(),
        entries[i].0 == key,
        other != key,
    ensures
        window_at(entries.update(i, (key, after)), other) == window_at(entries, other),
    decreases entries.len(),
{
    let changed = entries.update(i, (key, after));
    if i == 0 {
        assert(changed.drop_first() =~= entries.drop_first());
    } else {
        assert(changed.drop_first() =~= entries.drop_first().update(i - 1, (key, after)));
        lemma_window_update(entries.drop_first(), key, i - 1, after, other);
    }
}

proof fn lemma_window_push(
    entries: Seq<(Seq<char>, Seq<MessageView>)>,
    key: Seq<char>,
    after: Seq<MessageView>,
    other: Seq<char>,
)
    requires
        forall|k: int| 0 <= k < entries.len() ==> (#[trigger] entries[k]).0 != key,
    ensures
        window_at(entries.push((key, after)), other) == if other == key {
            after
        } else {
            window_at(entries, other)
        },
    decreases entries.len(),
{
    let longer = entries.push((key, after));
    if entries.len() == 0 {
        assert(longer.drop_first() =~= entries);
    } else {
        let rest = entries.drop_first();
        assert(longer.drop_first() =~= rest.push((key, after)));
        assert(entries[0].0 != key);
        assert forall|k: int| 0 <= k < rest.len() implies (#[trigger] rest[k]).0 != key by {
            assert(rest[k] == entries[k + 1]);
        }
        lemma_window_push(rest, key, after, other);
    }
}

/// A window to which an exchange was added.
pub open spec fn appended(
    window: Seq<MessageView>,
    user_text: Seq<char>,
    assistant_text: Seq<char>,
    max: nat,
    c: CompactionConfig,
) -> Seq<MessageView> {
    if trimmed(user_text).len() == 0 || trimmed(assistant_text).len() == 0 {
        window
    } else {
        compacted(
            window.push(
                plain_message(LlmRole::User, shortened(trimmed(user_text), max)),
            ).push(
                plain_message(LlmRole::Assistant, shortened(trimmed(assistant_text), max)),
            ),
            c,
            None,
        )
    }
}

/// The key of the window that a message belongs to: that of its conversation, else the
/// configured reply target, else one shared key.
pub open spec fn key_of(origin: Option<MessageOrigin>, configured: Option<String>) -> Seq<char> {
    match origin {
        Some(o) => o.key(),
        None => match configured {
            Some(t) => t@,
            None => "default"@,
        },
    }
}

/// The key of the window that a message belongs to.
pub fn conversation_key(origin: &Option<MessageOrigin>, configured: &Option<String>) -> (r: String)
    ensures
        r@ == key_of(*origin, *configured),
{
    match origin {
        Some(o) => o.conversation_key(),
        None => match configured {
            Some(t) => copy_of(t.as_str()),
            None => copy_of("default"),
        },
    }
}

/// The tag by which the memories of a conversation are found: that of the message's
/// conversation, else that of the session.
pub fn session_tag_for_recall(
    origin: &Option<MessageOrigin>,
    session: &Option<MessageOrigin>,
) -> (r: Option<String>)
    ensures
        crate::llm::opt_view(r) == match (*origin, *session) {
            (Some(o), _) => Some(o.tag()),
            (None, Some(s)) => Some(s.tag()),
            (None, None) => None,
        },
{
    match origin {
        Some(o) => Some(o.session_tag()),
        None => match session {
            Some(s) => Some(s.session_tag()),
            None => None,
        },
    }
}

// ---------------------------------------------------------------------------
// Filling a window after a restart
// ---------------------------------------------------------------------------

/// A memory that a turn left.
#[derive(Debug)]
pub struct StoredMemory {
    /// What is remembered.
    pub content: String,
    /// Where it comes from.
    pub source: String,
    /// Its tags.
    pub tags: Vec<String>,
    /// Is it in use?
    pub active: bool,
    /// When it was made.
    pub created_at: i64,
}

/// The memory bears the tag.
pub open spec fn has_tag(m: StoredMemory, tag: Seq<char>) -> bool {
    views(m.tags@).contains(tag)
}

/// Does the memory bear the tag?
fn bears(m: &StoredMemory, tag: &str) -> (r: bool)
    ensures
        r == has_tag(*m, tag@),
{
    let mut i: usize = 0;
    while i < m.tags.len()
        invariant
            i <= m.tags@.len(),
            forall|k: int| 0 <= k < i ==> #[trigger] views(m.tags@)[k] != tag@,
        decreases m.tags@.len() - i,
    {
        assert(views(m.tags@)[i as int] == m.tags@[i as int]@);
        if same(m.tags[i].as_str(), tag) {
            return true;
        }
        i += 1;
    }
    false
}

/// The message that a memory stands for in the window of the session `tag`: one that the
/// user or the agent said there, and that is in use.
pub open spec fn chat_message(m: StoredMemory, tag: Seq<char>, max: nat) -> Option<MessageView> {
    if m.source@ != CHAT_HISTORY_SOURCE@ || !has_tag(m, tag) || !m.active {
        None
    } else if has_tag(m, CHAT_USER_TAG@) {
        Some(plain_message(LlmRole::User, shortened(m.content@, max)))
    } else if has_tag(m, CHAT_ASSISTANT_TAG@) {
        Some(plain_message(LlmRole::Assistant, shortened(m.content@, max)))
    } else {
        None
    }
}

/// `x` put behind the last entry that is not later.
pub open spec fn inserted(
    s: Seq<(int, MessageView)>,
    x: (int, MessageView),
) -> Seq<(int, MessageView)>
    decreases s.len(),
{
    if s.len() == 0 || s.last().0 <= x.0 {
        s.push(x)
    } else {
        inserted(s.drop_last(), x).push(s.last())
    }
}

/// The messages of the first `n` memories, in the order of time; those of one time in the
/// order of the memories.
pub open spec fn chat_in_order(
    memories: Seq<StoredMemory>,
    tag: Seq<char>,
    max: nat,
    n: nat,
) -> Seq<(int, MessageView)>
    decreases n,
{
    if n == 0 {
        Seq::empty()
    } else {
        let before = chat_in_order(memories, tag, max, (n - 1) as nat);
        let m = memories[n - 1];
        match chat_message(m, tag, max) {
            Some(msg) => inserted(before, (m.created_at as int, msg)),
            None => before,
        }
    }
}

/// The last `limit` messages.
pub open spec fn last_messages(s: Seq<(int, MessageView)>, limit: nat) -> Seq<MessageView> {
    let all = s.map_values(|e: (int, MessageView)| e.1);
    if all.len() > limit {
        all.skip(all.len() - limit)
    } else {
        all
    }
}

/// The window of a session after a restart: its last `limit` messages.
pub open spec fn hydrated(
    memories: Seq<StoredMemory>,
    tag: Seq<char>,
    max: nat,
    limit: nat,
) -> Seq<MessageView> {
    last_messages(chat_in_order(memories, tag, max, memories.len()), limit)
}

spec fn timed_view(v: Seq<(i64, LlmMessage)>) -> Seq<(int, MessageView)> {
    v.map_values(|e: (i64, LlmMessage)| (e.0 as int, e.1@))
}

proof fn lemma_inserted_at(s: Seq<(int, MessageView)>, x: (int, MessageView), k: int)
    requires
        0 <= k <= s.len(),
        forall|i: int| k <= i < s.len() ==> (#[trigger] s[i]).0 > x.0,
        k > 0 ==> s[k - 1].0 <= x.0,
    ensures
        inserted(s, x) == s.insert(k, x),
    decreases s.len(),
{
    if k == s.len() {
        assert(s.insert(k, x) =~= s.push(x));
    } else {
        assert(s.last() == s[s.len() - 1]);
        let t = s.drop_last();
        assert forall|i: int| k <= i < t.len() implies (#[trigger] t[i]).0 > x.0 by {
            assert(t[i] == s[i]);
        }
        lemma_inserted_at(t, x, k);
        assert(s.insert(k, x) =~= t.insert(k, x).push(s.last()));
    }
}

/// The message that a memory stands for, as the library holds it.
fn to_chat_message(m: &StoredMemory, tag: &str, max: usize) -> (r: Option<LlmMessage>)
    ensures
        match r {
            Some(x) => chat_message(*m, tag@, max as nat) == Some(x@),
            None => chat_message(*m, tag@, max as nat) is None,
        },
{
    if !same(m.source.as_str(), CHAT_HISTORY_SOURCE) || !bears(m, tag) || !m.active {
        return None;
    }
    if bears(m, CHAT_USER_TAG) {
        Some(LlmMessage::user(truncate_for_history(m.content.as_str(), max).as_str()))
    } else if bears(m, CHAT_ASSISTANT_TAG) {
        Some(LlmMessage::assistant(truncate_for_history(m.content.as_str(), max).as_str()))
    } else {
        None
    }
}

/// The window of a session after a restart: its last `limit` messages, in the order of
/// time.
pub fn hydrate_history_from_store(
    memories: &Vec<StoredMemory>,
    session_tag: &str,
    max: usize,
    limit: usize,
) -> (r: Vec<LlmMessage>)
    ensures
        messages_view(r@) == hydrated(memories@, session_tag@, max as nat, limit as nat),
{
    let mut chat: Vec<(i64, LlmMessage)> = Vec::new();
    let mut i: usize = 0;
    assert(timed_view(chat@) =~= Seq::<(int, MessageView)>::empty());
    while i < memories.len()
        invariant
            i <= memories@.len(),
            timed_view(chat@) == chat_in_order(memories@, session_tag@, max as nat, i as nat),
        decreases memories@.len() - i,
    {
        match to_chat_message(&memories[i], session_tag, max) {
            Some(message) => {
                let at: i64 = memories[i].created_at;
                let ghost m = message@;
                let ghost before = chat@;
                let mut k: usize = chat.len();
                while k > 0 && chat[k - 1].0 > at
                    invariant
                        k <= chat@.len(),
                        chat@ == before,
                        forall|j: int| k <= j < chat@.len() ==> (#[trigger] chat@[j]).0 > at,
                    decreases k,
                {
                    k -= 1;
                }
                proof {
                    let s = timed_view(before);
                    assert forall|j: int| k <= j < s.len() implies (#[trigger] s[j]).0 > at by {
                        assert(s[j].0 == before[j].0);
                    }
                    lemma_inserted_at(s, (at as int, m), k as int);
                }
                chat.insert(k, (at, message));
                assert(timed_view(chat@) =~= timed_view(before).insert(
                    k as int,
                    (at as int, m),
                ));
            },
            None => {},
        }
        i += 1;
    }
    let ghost ordered = timed_view(chat@);
    let skip: usize = if chat.len() > limit {
        chat.len() - limit
    } else {
        0
    };
    let mut out: Vec<LlmMessage> = Vec::new();
    let mut j: usize = skip;
    while j < chat.len()
        invariant
            skip <= j <= chat@.len(),
            ordered == timed_view(chat@),
            out@.len() == j - skip,
            forall|k: int| 0 <= k < out@.len() ==> (#[trigger] out@[k])@ == ordered[k + skip].1,
        decreases chat@.len() - j,
    {
        out.push(chat[j].1.copy());
        j += 1;
    }
    assert(messages_view(out@) =~= last_messages(ordered, limit as nat));
    out
}

/// The messages that precede a question: the window, or, where it is empty, what the memories
/// of the session give.
pub fn conversation_history(
    windows: &ConversationHistory,
    key: &str,
    memories: &Vec<StoredMemory>,
    session_tag: &Option<String>,
    max: usize,
    limit: usize,
) -> (r: Vec<LlmMessage>)
    ensures
        messages_view(r@) == if windows.window(key@).len() > 0 {
            windows.window(key@)
        } else {
            match *session_tag {
                Some(tag) => hydrated(memories@, tag@, max as nat, limit as nat),
                None => Seq::empty(),
            }
        },
{
    let window = windows.history_for(key);
    if window.len() > 0 {
        return window;
    }
    match session_tag {
        Some(tag) => hydrate_history_from_store(memories, tag.as_str(), max, limit),
        None => {
            let r: Vec<LlmMessage> = Vec::new();
            assert(messages_view(r@) =~= Seq::<MessageView>::empty());
            r
        },
    }
}

/// `m` is the memory of what was said in a conversation by the one whose tag is `role_tag`.
pub open spec fn is_chat_memory(
    m: StoredMemory,
    origin: MessageOrigin,
    role_tag: Seq<char>,
    text: Seq<char>,
    max: nat,
    now: i64,
) -> bool {
    &&& m.content@ == shortened(trimmed(text), max)
    &&& m.source@ == CHAT_HISTORY_SOURCE@
    &&& views(m.tags@) == seq![origin.tag(), role_tag]
    &&& m.active
    &&& m.created_at == now
}

/// The memory that a turn leaves of what was said. What is blank leaves none.
pub fn persist_chat_turn(
    origin: &MessageOrigin,
    role_tag: &str,
    text: &str,
    max: usize,
    now: i64,
) -> (r: Option<StoredMemory>)
    ensures
        match r {
            Some(m) => trimmed(text@).len() > 0 && is_chat_memory(
                m,
                *origin,
                role_tag@,
                text@,
                max as nat,
                now,
            ),
            None => trimmed(text@).len() == 0,
        },
{
    let said = trim(text);
    if said.as_str().is_empty() {
        return None;
    }
    let tags: Vec<String> = vec![origin.session_tag(), copy_of(role_tag)];
    assert(views(tags@) =~= seq![origin.tag(), role_tag@]);
    Some(
        StoredMemory {
            content: truncate_for_history(said.as_str(), max),
            source: copy_of(CHAT_HISTORY_SOURCE),
            tags,
            active: true,
            created_at: now,
        },
    )
}

// ---------------------------------------------------------------------------
// Laws
// ---------------------------------------------------------------------------

/// What a turn leaves of what was said is found again in its session, with the role of the
/// one who said it.
pub proof fn law_chat_is_found_again(
    m: StoredMemory,
    origin: MessageOrigin,
    by_user: bool,
    text: Seq<char>,
    max: nat,
    now: i64,
)
    requires
        is_chat_memory(
            m,
            origin,
            if by_user {
                CHAT_USER_TAG@
            } else {
                CHAT_ASSISTANT_TAG@
            },
            text,
            max,
            now,
        ),
    ensures
        chat_message(m, origin.tag(), max) == Some(
            plain_message(
                if by_user {
                    LlmRole::User
                } else {
                    LlmRole::Assistant
                },
                shortened(shortened(trimmed(text), max), max),
            ),
        ),
{
    let tags = views(m.tags@);
    assert(tags[0] == origin.tag());
    assert(tags[1] == if by_user {
        CHAT_USER_TAG@
    } else {
        CHAT_ASSISTANT_TAG@
    });
    reveal_strlit("chat:user");
    reveal_strlit("chat:assistant");
    reveal_strlit("session:");
    assert(CHAT_USER_TAG@[0] == 'c');
    assert(origin.tag()[0] == 's');
    assert(CHAT_USER_TAG@.len() != CHAT_ASSISTANT_TAG@.len());
    if !by_user {
        assert forall|i: int| 0 <= i < tags.len() implies tags[i] != CHAT_USER_TAG@ by {}
    }
}

/// A shortened message fits: what is kept of a long one is a beginning of it, ends between
/// two characters and takes no more than `max` bytes, before the ellipsis.
pub proof fn law_shortened_message_fits(text: Seq<char>, max: nat)
    ensures
        byte_len(text) <= max ==> shortened(text, max) == text,
        byte_len(text) > max ==> exists|k: int|
            0 <= k < text.len() && shortened(text, max) == #[trigger] text.take(k) + "…"@
                && byte_len(text.take(k)) <= max,
{
    if byte_len(text) > max {
        let k = lemma_byte_prefix(text, max);
        assert(text.take(text.len() as int) =~= text);
        assert(shortened(text, max) == text.take(k) + "…"@);
    }
}

/// Compaction never makes a window longer, and never drops a protected message: the first
/// and the last ones stay where they are.
pub proof fn law_protected_messages_stay(window: Seq<MessageView>, c: CompactionConfig)
    requires
        c.protect_first_n + c.protect_last_n <= window.len(),
    ensures
        evicted(window, c).len() <= window.len(),
        evicted(window, c).take(c.protect_first_n as int) == window.take(c.protect_first_n as int),
        evicted(window, c).len() >= c.protect_first_n + c.protect_last_n,
        evicted(window, c).skip(evicted(window, c).len() - c.protect_last_n) == window.skip(
            window.len() - c.protect_last_n,
        ),
{
    let n = eviction(window.len(), c);
    let e = evicted(window, c);
    assert(n <= evictable(window.len(), c));
    assert(e.take(c.protect_first_n as int) =~= window.take(c.protect_first_n as int));
    assert(e.skip(e.len() - c.protect_last_n) =~= window.skip(window.len() - c.protect_last_n));
}

/// A window whose protections leave room is no longer than its limit after compaction.
pub proof fn law_window_is_bounded(window: Seq<MessageView>, c: CompactionConfig)
    requires
        c.max_messages > 0,
        c.protect_first_n + c.protect_last_n <= c.max_messages,
    ensures
        evicted(window, c).len() <= c.max_messages,
        window.len() <= c.max_messages ==> evicted(window, c) == window,
{
}

/// The default drops the oldest messages: what is left is the end of the window.
pub proof fn law_default_keeps_the_newest(window: Seq<MessageView>, c: CompactionConfig)
    requires
        c.max_messages == HISTORY_MAX_MESSAGES,
        c.protect_first_n == 0,
        c.protect_last_n == HISTORY_MAX_MESSAGES,
        window.len() > HISTORY_MAX_MESSAGES,
    ensures
        evicted(window, c) == window.skip(window.len() - HISTORY_MAX_MESSAGES),
{
    assert(evicted(window, c) =~= window.skip(window.len() - HISTORY_MAX_MESSAGES));
}

/// A limit of zero means no compaction.
pub proof fn law_zero_limit_disables_compaction(
    window: Seq<MessageView>,
    c: CompactionConfig,
    summary: Option<MessageView>,
)
    requires
        c.max_messages == 0,
    ensures
        compacted(window, c, summary) == window,
{
}

proof fn lemma_inserted_sorted(s: Seq<(int, MessageView)>, x: (int, MessageView))
    requires
        forall|i: int, j: int| 0 <= i < j < s.len() ==> (#[trigger] s[i]).0 <= (#[trigger] s[j]).0,
    ensures
        inserted(s, x).len() == s.len() + 1,
        forall|i: int, j: int|
            0 <= i < j < inserted(s, x).len() ==> (#[trigger] inserted(s, x)[i]).0 <= (
            #[trigger] inserted(s, x)[j]).0,
        forall|i: int|
            0 <= i < inserted(s, x).len() ==> #[trigger] inserted(s, x)[i] == x || s.contains(
                inserted(s, x)[i],
            ),
    decreases s.len(),
{
    let r = inserted(s, x);
    if s.len() == 0 || s.last().0 <= x.0 {
        assert forall|i: int| 0 <= i < r.len() implies #[trigger] r[i] == x || s.contains(r[i]) by {
            if i < s.len() {
                assert(r[i] == s[i]);
            }
        }
    } else {
        let t = s.drop_last();
        lemma_inserted_sorted(t, x);
        let q = inserted(t, x);
        assert(r == q.push(s.last()));
        assert forall|i: int| 0 <= i < r.len() implies #[trigger] r[i] == x || s.contains(r[i]) by {
            if i < q.len() {
                assert(q[i] == x || t.contains(q[i]));
                if t.contains(q[i]) {
                    let k = choose|k: int| 0 <= k < t.len() && t[k] == q[i];
                    assert(s[k] == r[i]);
                }
            } else {
                assert(r[i] == s[s.len() - 1]);
            }
        }
        assert forall|i: int, j: int| 0 <= i < j < r.len() implies (#[trigger] r[i]).0 <= (
        #[trigger] r[j]).0 by {
            if j == q.len() {
                assert(q[i] == x || t.contains(q[i]));
                if t.contains(q[i]) {
                    let k = choose|k: int| 0 <= k < t.len() && t[k] == q[i];
                    assert(s[k].0 <= s[s.len() - 1].0);
                }
            }
        }
    }
}

/// The messages of a window that was filled after a restart stand in the order of time.
pub proof fn law_hydrated_window_is_in_order(
    memories: Seq<StoredMemory>,
    tag: Seq<char>,
    max: nat,
    n: nat,
)
    requires
        n <= memories.len(),
    ensures
        forall|i: int, j: int|
            0 <= i < j < chat_in_order(memories, tag, max, n).len() ==> (#[trigger] chat_in_order(
                memories,
                tag,
                max,
                n,
            )[i]).0 <= (#[trigger] chat_in_order(memories, tag, max, n)[j]).0,
    decreases n,
{
    if n > 0 {
        law_hydrated_window_is_in_order(memories, tag, max, (n - 1) as nat);
        let m = memories[n - 1];
        match chat_message(m, tag, max) {
            Some(msg) => {
                lemma_inserted_sorted(
                    chat_in_order(memories, tag, max, (n - 1) as nat),
                    (m.created_at as int, msg),
                );
            },
            None => {},
        }
    }
}

/// A memory of another session never enters a window.
pub proof fn law_sessions_do_not_leak(m: StoredMemory, tag: Seq<char>, max: nat)
    requires
        !has_tag(m, tag),
    ensures
        chat_message(m, tag, max) is None,
{
}

// ---------------------------------------------------------------------------
// What a history is for
// ---------------------------------------------------------------------------

/// `kept` is what a message of at most `max` bytes keeps of `text`: all of it, or as much of its
/// beginning as fits, with an ellipsis behind it.
pub open spec fn is_kept_of(text: Seq<char>, kept: Seq<char>, max: nat) -> bool {
    if byte_len(text) <= max {
        kept == text
    } else {
        exists|k: int|
            0 <= k < text.len() && kept == #[trigger] text.take(k) + "…"@ && byte_len(text.take(k))
                <= max && byte_len(text.take(k + 1)) > max
    }
}

/// A message keeps as much of a text as fits.
pub proof fn law_as_much_as_fits_is_kept(text: Seq<char>, max: nat)
    ensures
        is_kept_of(text, shortened(text, max), max),
{
    if byte_len(text) > max {
        let k = lemma_byte_prefix(text, max);
        assert(text.take(text.len() as int) =~= text);
        assert(shortened(text, max) == text.take(k) + "…"@);
    }
}

/// `m` is a message that someone said: a plain one.
pub open spec fn is_said(m: MessageView, role: LlmRole, text: Seq<char>, max: nat) -> bool {
    &&& m.role == role
    &&& is_kept_of(text, m.content, max)
    &&& m.tool_call_id is None
    &&& m.tool_calls is None
}

/// An exchange is kept: where the end of a window is protected, its last two messages are what
/// the user said and what the agent answered; what stood before them is a part of the window,
/// in its order.
pub proof fn law_exchange_is_kept(
    window: Seq<MessageView>,
    user: Seq<char>,
    assistant: Seq<char>,
    max: nat,
    c: CompactionConfig,
)
    requires
        trimmed(user).len() > 0,
        trimmed(assistant).len() > 0,
        c.max_messages == 0 || c.protect_last_n >= 2,
    ensures
        ({
            let r = appended(window, user, assistant, max, c);
            let n = r.len() as int;
            &&& n >= 2
            &&& is_said(r[n - 2], LlmRole::User, trimmed(user), max)
            &&& is_said(r[n - 1], LlmRole::Assistant, trimmed(assistant), max)
            &&& exists|a: int, b: int|
                0 <= a <= b <= window.len() && r.take(n - 2) == #[trigger] window.take(a)
                    + #[trigger] window.skip(b)
        }),
{
    law_as_much_as_fits_is_kept(trimmed(user), max);
    law_as_much_as_fits_is_kept(trimmed(assistant), max);
    let u = plain_message(LlmRole::User, shortened(trimmed(user), max));
    let v = plain_message(LlmRole::Assistant, shortened(trimmed(assistant), max));
    let full = window.push(u).push(v);
    let r = appended(window, user, assistant, max, c);
    let n = r.len() as int;
    let drop = eviction(full.len(), c);
    if drop == 0 {
        assert(r.take(n - 2) =~= window.take(window.len() as int) + window.skip(
            window.len() as int,
        ));
    } else {
        let first = c.protect_first_n as int;
        assert(first + drop <= window.len());
        assert(r.take(n - 2) =~= window.take(first) + window.skip(first + drop));
    }
}

/// An exchange of which either part is blank leaves the window as it was.
pub proof fn law_blank_exchange_is_not_kept(
    window: Seq<MessageView>,
    user: Seq<char>,
    assistant: Seq<char>,
    max: nat,
    c: CompactionConfig,
)
    requires
        is_blank(user) || is_blank(assistant),
    ensures
        appended(window, user, assistant, max, c) == window,
{
    lemma_trimmed_blank(user);
    lemma_trimmed_blank(assistant);
}

/// Compaction drops the oldest messages that are not protected, and no more than it has to: the
/// window is left with its limit, or with its protected messages where these are more.
pub proof fn law_oldest_are_dropped_first(window: Seq<MessageView>, c: CompactionConfig)
    ensures
        ({
            let r = compacted(window, c, None);
            let kept = c.protect_first_n + c.protect_last_n;
            &&& exists|k: int|
                c.protect_first_n <= k <= window.len() && r == window.take(c.protect_first_n as int)
                    + #[trigger] window.skip(k) || r == window
            &&& c.max_messages == 0 || window.len() <= c.max_messages ==> r == window
            &&& c.max_messages > 0 && window.len() > c.max_messages && kept <= c.max_messages
                ==> r.len() == c.max_messages
            &&& c.max_messages > 0 && window.len() > c.max_messages && c.max_messages < kept
                && kept < window.len() ==> r.len() == kept
            &&& kept >= window.len() ==> r == window
        }),
{
    let n = eviction(window.len(), c);
    let r = compacted(window, c, None);
    if n == 0 {
        assert(r == window);
        assert(window.skip(window.len() as int).len() == 0);
    } else {
        assert(r == window.take(c.protect_first_n as int) + window.skip(c.protect_first_n + n));
    }
}

/// A summary takes the place of all messages that are not protected: before it stand the first
/// ones and behind it the last ones, as they were.
pub proof fn law_summary_stands_for_the_rest(
    window: Seq<MessageView>,
    c: CompactionConfig,
    summary: MessageView,
)
    requires
        c.max_messages > 0,
        window.len() > c.max_messages,
        c.protect_first_n + c.protect_last_n < window.len(),
    ensures
        ({
            let r = compacted(window, c, Some(summary));
            let first = c.protect_first_n as int;
            let last = c.protect_last_n as int;
            &&& r.len() == first + 1 + last
            &&& r.take(first) == window.take(first)
            &&& r[first] == summary
            &&& r.skip(first + 1) == window.skip(window.len() - last)
        }),
{
    let r = compacted(window, c, Some(summary));
    let first = c.protect_first_n as int;
    let last = c.protect_last_n as int;
    assert(r.take(first) =~= window.take(first));
    assert(r.skip(first + 1) =~= window.skip(window.len() - last));
}

/// A memory of something that was said in the session `tag`, by the user or by the agent, and
/// is in use.
pub open spec fn was_said(m: StoredMemory, tag: Seq<char>) -> bool {
    &&& m.source@ == CHAT_HISTORY_SOURCE@
    &&& m.active
    &&& views(m.tags@).contains(tag)
    &&& views(m.tags@).contains(CHAT_USER_TAG@) || views(m.tags@).contains(CHAT_ASSISTANT_TAG@)
}

/// The memory `i` is earlier than the memory `j`: of an earlier time, or of the same time and
/// stored before it.
pub open spec fn is_earlier(memories: Seq<StoredMemory>, i: int, j: int) -> bool {
    memories[i].created_at < memories[j].created_at || memories[i].created_at
        == memories[j].created_at && i < j
}

/// The places of the memories of a session among the first `n`, in the order of time.
spec fn places(memories: Seq<StoredMemory>, tag: Seq<char>, n: nat) -> Seq<int>
    decreases n,
{
    if n == 0 {
        Seq::empty()
    } else {
        let before = places(memories, tag, (n - 1) as nat);
        if was_said(memories[n - 1], tag) {
            placed(memories, before, n - 1)
        } else {
            before
        }
    }
}

spec fn placed(memories: Seq<StoredMemory>, s: Seq<int>, x: int) -> Seq<int>
    decreases s.len(),
{
    if s.len() == 0 || memories[s.last()].created_at <= memories[x].created_at {
        s.push(x)
    } else {
        placed(memories, s.drop_last(), x).push(s.last())
    }
}

spec fn at_places(
    memories: Seq<StoredMemory>,
    tag: Seq<char>,
    max: nat,
    s: Seq<int>,
    r: Seq<(int, MessageView)>,
) -> bool {
    &&& r.len() == s.len()
    &&& forall|i: int|
        0 <= i < s.len() ==> r[i].0 == memories[#[trigger] s[i]].created_at && chat_message(
            memories[s[i]],
            tag,
            max,
        ) == Some(r[i].1)
}

proof fn lemma_placed(
    memories: Seq<StoredMemory>,
    tag: Seq<char>,
    max: nat,
    s: Seq<int>,
    r: Seq<(int, MessageView)>,
    x: int,
    msg: MessageView,
)
    requires
        at_places(memories, tag, max, s, r),
        chat_message(memories[x], tag, max) == Some(msg),
        forall|i: int| 0 <= i < s.len() ==> #[trigger] s[i] < x,
        forall|i: int, j: int|
            0 <= i < j < s.len() ==> is_earlier(memories, #[trigger] s[i], #[trigger] s[j]),
    ensures
        at_places(
            memories,
            tag,
            max,
            placed(memories, s, x),
            inserted(r, (memories[x].created_at as int, msg)),
        ),
        forall|k: int|
            #![trigger placed(memories, s, x).contains(k)]
            placed(memories, s, x).contains(k) <==> k == x || s.contains(k),
        forall|i: int|
            0 <= i < placed(memories, s, x).len() ==> #[trigger] placed(memories, s, x)[i] <= x,
        forall|i: int, j: int|
            0 <= i < j < placed(memories, s, x).len() ==> is_earlier(
                memories,
                #[trigger] placed(memories, s, x)[i],
                #[trigger] placed(memories, s, x)[j],
            ),
    decreases s.len(),
{
    let p = placed(memories, s, x);
    let q = inserted(r, (memories[x].created_at as int, msg));
    if s.len() == 0 || memories[s.last()].created_at <= memories[x].created_at {
        assert(p == s.push(x));
        assert forall|k: int| #![trigger p.contains(k)]
            p.contains(k) <==> k == x || s.contains(k) by {
            if s.contains(k) {
                let i = choose|i: int| 0 <= i < s.len() && s[i] == k;
                assert(p[i] == k);
            }
            assert(p[s.len() as int] == x);
        }
        assert forall|i: int, j: int| 0 <= i < j < p.len() implies is_earlier(
            memories,
            #[trigger] p[i],
            #[trigger] p[j],
        ) by {
            if j == s.len() {
                let last = s.len() - 1;
                if i < last {
                    assert(is_earlier(memories, s[i], s[last]));
                }
                assert(s[i] < x);
            }
        }
        assert(r.len() > 0 ==> r.last().0 == memories[s[s.len() - 1]].created_at);
    } else {
        let t = s.drop_last();
        let u = r.drop_last();
        let last = s.last();
        assert(s[s.len() - 1] == last);
        assert forall|i: int| 0 <= i < t.len() implies u[i].0 == memories[
            #[trigger] t[i]
        ].created_at && chat_message(memories[t[i]], tag, max) == Some(u[i].1) by {
            assert(t[i] == s[i]);
        }
        lemma_placed(memories, tag, max, t, u, x, msg);
        let w = placed(memories, t, x);
        assert(p == w.push(last));
        assert forall|k: int| #![trigger p.contains(k)]
            p.contains(k) <==> k == x || s.contains(k) by {
            if p.contains(k) {
                let i = choose|i: int| 0 <= i < p.len() && p[i] == k;
                if i < w.len() {
                    assert(w.contains(k));
                    if t.contains(k) {
                        let j = choose|j: int| 0 <= j < t.len() && t[j] == k;
                        assert(s[j] == k);
                    }
                } else {
                    assert(s[s.len() - 1] == k);
                }
            }
            if k == x || s.contains(k) {
                if s.contains(k) && k != last {
                    let j = choose|j: int| 0 <= j < s.len() && s[j] == k;
                    assert(t[j] == k);
                    assert(t.contains(k));
                }
                if k == last {
                    assert(p[w.len() as int] == k);
                } else {
                    assert(w.contains(k));
                    let j = choose|j: int| 0 <= j < w.len() && w[j] == k;
                    assert(p[j] == k);
                }
            }
        }
        assert forall|i: int, j: int| 0 <= i < j < p.len() implies is_earlier(
            memories,
            #[trigger] p[i],
            #[trigger] p[j],
        ) by {
            if j == w.len() {
                assert(w.contains(w[i]));
                if w[i] != x {
                    assert(t.contains(w[i]));
                    let k = choose|k: int| 0 <= k < t.len() && t[k] == w[i];
                    assert(s[k] == t[k]);
                    assert(is_earlier(memories, s[k], s[s.len() - 1]));
                }
            }
        }
    }
}

proof fn lemma_places(memories: Seq<StoredMemory>, tag: Seq<char>, max: nat, n: nat)
    requires
        n <= memories.len(),
    ensures
        at_places(
            memories,
            tag,
            max,
            places(memories, tag, n),
            chat_in_order(memories, tag, max, n),
        ),
        forall|k: int|
            #![trigger places(memories, tag, n).contains(k)]
            places(memories, tag, n).contains(k) <==> 0 <= k < n && was_said(memories[k], tag),
        forall|i: int|
            0 <= i < places(memories, tag, n).len() ==> 0 <= #[trigger] places(
                memories,
                tag,
                n,
            )[i] < n,
        forall|i: int, j: int|
            0 <= i < j < places(memories, tag, n).len() ==> is_earlier(
                memories,
                #[trigger] places(memories, tag, n)[i],
                #[trigger] places(memories, tag, n)[j],
            ),
    decreases n,
{
    if n > 0 {
        let m = (n - 1) as nat;
        lemma_places(memories, tag, max, m);
        let s = places(memories, tag, m);
        if was_said(memories[n - 1], tag) {
            let msg = chat_message(memories[n - 1], tag, max)->Some_0;
            lemma_placed(
                memories,
                tag,
                max,
                s,
                chat_in_order(memories, tag, max, m),
                n - 1,
                msg,
            );
            let p = places(memories, tag, n);
            assert(p == placed(memories, s, n - 1));
            assert forall|k: int| #![trigger p.contains(k)]
                p.contains(k) <==> 0 <= k < n && was_said(memories[k], tag) by {
                assert(s.contains(k) <==> 0 <= k < m && was_said(memories[k], tag));
            }
            assert forall|i: int| 0 <= i < p.len() implies 0 <= #[trigger] p[i] < n by {
                assert(p.contains(p[i]));
            }
        } else {
            assert(chat_message(memories[n - 1], tag, max) is None);
        }
    }
}

/// A window that is filled after a restart holds the newest messages of its session, and nothing
/// else. There are memories, one for each message, in the order of time, such that each message
/// is what its memory says; a memory of the session that is left out is earlier than all of
/// them, and is left out only where the window is full.
pub proof fn law_hydration_keeps_the_newest(
    memories: Seq<StoredMemory>,
    tag: Seq<char>,
    max: nat,
    limit: nat,
) -> (kept: Seq<int>)
    ensures
        ({
            let r = hydrated(memories, tag, max, limit);
            &&& r.len() == kept.len()
            &&& r.len() <= limit
            &&& forall|i: int|
                0 <= i < kept.len() ==> {
                    let m = memories[#[trigger] kept[i]];
                    &&& 0 <= kept[i] < memories.len()
                    &&& was_said(m, tag)
                    &&& is_said(
                        r[i],
                        if views(m.tags@).contains(CHAT_USER_TAG@) {
                            LlmRole::User
                        } else {
                            LlmRole::Assistant
                        },
                        m.content@,
                        max,
                    )
                }
            &&& forall|i: int, j: int|
                0 <= i < j < kept.len() ==> is_earlier(
                    memories,
                    #[trigger] kept[i],
                    #[trigger] kept[j],
                )
            &&& forall|k: int|
                0 <= k < memories.len() && was_said(#[trigger] memories[k], tag) && !kept.contains(
                    k,
                ) ==> r.len() == limit && forall|i: int|
                    0 <= i < kept.len() ==> is_earlier(memories, k, #[trigger] kept[i])
        }),
{
    lemma_places(memories, tag, max, memories.len());
    let all = places(memories, tag, memories.len());
    let timed = chat_in_order(memories, tag, max, memories.len());
    let r = hydrated(memories, tag, max, limit);
    let from: int = if all.len() > limit {
        all.len() - limit
    } else {
        0
    };
    let kept = all.skip(from);
    assert forall|i: int| 0 <= i < kept.len() implies {
        let m = memories[#[trigger] kept[i]];
        &&& 0 <= kept[i] < memories.len()
        &&& was_said(m, tag)
        &&& is_said(
            r[i],
            if views(m.tags@).contains(CHAT_USER_TAG@) {
                LlmRole::User
            } else {
                LlmRole::Assistant
            },
            m.content@,
            max,
        )
    } by {
        let m = memories[kept[i]];
        assert(kept[i] == all[from + i]);
        assert(all.contains(all[from + i]));
        assert(r[i] == timed[from + i].1);
        assert(chat_message(m, tag, max) == Some(timed[from + i].1));
        law_as_much_as_fits_is_kept(m.content@, max);
    }
    assert forall|i: int, j: int| 0 <= i < j < kept.len() implies is_earlier(
        memories,
        #[trigger] kept[i],
        #[trigger] kept[j],
    ) by {
        assert(is_earlier(memories, all[from + i], all[from + j]));
    }
    assert forall|k: int|
        0 <= k < memories.len() && was_said(#[trigger] memories[k], tag) && !kept.contains(
            k,
        ) implies r.len() == limit && forall|i: int|
        0 <= i < kept.len() ==> is_earlier(memories, k, #[trigger] kept[i]) by {
        assert(all.contains(k));
        let j = choose|j: int| 0 <= j < all.len() && all[j] == k;
        if j >= from {
            assert(kept[j - from] == k);
        }
        assert forall|i: int| 0 <= i < kept.len() implies is_earlier(
            memories,
            k,
            #[trigger] kept[i],
        ) by {
            assert(is_earlier(memories, all[j], all[from + i]));
        }
    }
    kept
}

/// What a turn leaves of what was said is a memory of its session that is found again: it holds
/// what was said, and who said it.
pub proof fn law_chat_memory_is_what_was_said(
    m: StoredMemory,
    origin: MessageOrigin,
    by_user: bool,
    text: Seq<char>,
    max: nat,
    now: i64,
)
    requires
        is_chat_memory(
            m,
            origin,
            if by_user {
                CHAT_USER_TAG@
            } else {
                CHAT_ASSISTANT_TAG@
            },
            text,
            max,
            now,
        ),
    ensures
        was_said(m, origin.tag()),
        is_kept_of(trimmed(text), m.content@, max),
        m.created_at == now,
        views(m.tags@).contains(CHAT_USER_TAG@) <==> by_user,
{
    law_chat_is_found_again(m, origin, by_user, text, max, now);
    law_as_much_as_fits_is_kept(trimmed(text), max);
    let tags = views(m.tags@);
    assert(tags[0] == origin.tag());
    assert(tags[1] == if by_user {
        CHAT_USER_TAG@
    } else {
        CHAT_ASSISTANT_TAG@
    });
    if !by_user {
        reveal_strlit("chat:user");
        reveal_strlit("chat:assistant");
        reveal_strlit("session:");
        assert(CHAT_USER_TAG@[0] == 'c');
        assert(origin.tag()[0] == 's');
        assert(CHAT_USER_TAG@.len() != CHAT_ASSISTANT_TAG@.len());
    }
}

/// The last message of a window that is filled after a restart is the latest of its session.
pub proof fn law_window_ends_with_the_latest(
    memories: Seq<StoredMemory>,
    tag: Seq<char>,
    max: nat,
    limit: nat,
    k: int,
)
    requires
        limit > 0,
        0 <= k < memories.len(),
        was_said(memories[k], tag),
        forall|j: int|
            0 <= j < memories.len() && was_said(#[trigger] memories[j], tag) && j != k
                ==> is_earlier(memories, j, k),
    ensures
        hydrated(memories, tag, max, limit).len() > 0,
        is_kept_of(
            memories[k].content@,
            hydrated(memories, tag, max, limit).last().content,
            max,
        ),
        hydrated(memories, tag, max, limit).last().role == LlmRole::User <==> views(
            memories[k].tags@,
        ).contains(CHAT_USER_TAG@),
{
    let kept = law_hydration_keeps_the_newest(memories, tag, max, limit);
    let r = hydrated(memories, tag, max, limit);
    if kept.contains(k) {
        let i = choose|i: int| 0 <= i < kept.len() && kept[i] == k;
        let last = kept.len() - 1;
        if i < last {
            assert(is_earlier(memories, kept[i], kept[last]));
            assert(was_said(memories[kept[last]], tag));
        }
        assert(kept[last] == k);
    } else {
        assert(was_said(memories[k], tag));
        assert(r.len() == limit);
        assert(is_earlier(memories, k, kept[0]));
        assert(was_said(memories[kept[0]], tag));
    }
}

/// Every message of a conversation goes to the window of its conversation; what comes from
/// nowhere goes to that of the configured target.
pub proof fn law_window_is_that_of_the_conversation(
    origin: Option<MessageOrigin>,
    configured: Option<String>,
)
    ensures
        origin is Some ==> key_of(origin, configured) == origin->Some_0.key(),
        origin is None && configured is Some ==> key_of(origin, configured) == configured->Some_0@,
{
}

/// A setting that writes a number of bytes that is not too small is followed.
pub proof fn law_message_size_can_be_set(n: usize)
    ensures
        n >= 100 ==> history_setting(Some(decimal(n as nat))) == n,
        n < 100 ==> history_setting(Some(decimal(n as nat))) == history_setting(None),
{
    let s = decimal(n as nat);
    lemma_decimal_value(n as nat);
    lemma_decimal_len(n as nat);
    assert(is_digit(s[0]) && is_digit(s[s.len() - 1]));
    assert(trimmed(s) == s);
    law_numeral_is_read_back(n as nat, usize::MAX as nat);
}

/// However a window is kept short, what was said is first put behind it: what the user said, and
/// then what the agent answered.
pub proof fn law_exchange_is_added_at_the_end(
    window: Seq<MessageView>,
    user: Seq<char>,
    assistant: Seq<char>,
    max: nat,
    c: CompactionConfig,
) -> (said: (MessageView, MessageView))
    requires
        !is_blank(user),
        !is_blank(assistant),
    ensures
        is_said(said.0, LlmRole::User, trimmed(user), max),
        is_said(said.1, LlmRole::Assistant, trimmed(assistant), max),
        appended(window, user, assistant, max, c) == compacted(
            window + seq![said.0, said.1],
            c,
            None,
        ),
{
    lemma_trimmed_blank(user);
    lemma_trimmed_blank(assistant);
    law_as_much_as_fits_is_kept(trimmed(user), max);
    law_as_much_as_fits_is_kept(trimmed(assistant), max);
    let u = plain_message(LlmRole::User, shortened(trimmed(user), max));
    let v = plain_message(LlmRole::Assistant, shortened(trimmed(assistant), max));
    assert(window + seq![u, v] =~= window.push(u).push(v));
    (u, v)
}

/// A setting that writes a number is followed; one that is missing has its default.
pub proof fn law_window_can_be_configured(value: &str, n: usize, default: nat)
    requires
        value@ == decimal(n as nat),
    ensures
        number_or(Some(value), default) == n,
        number_or(None, default) == default,
{
    let s = decimal(n as nat);
    lemma_decimal_value(n as nat);
    lemma_decimal_len(n as nat);
    assert(is_digit(s[0]) && is_digit(s[s.len() - 1]));
    assert(trimmed(s) == s);
    law_numeral_is_read_back(n as nat, usize::MAX as nat);
}

} // verus!
