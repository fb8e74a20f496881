//! Completing a text across several requests.
//!
//! A reply that the token limit cut off is continued: the partial text goes back to
//! the model with a nudge, and what comes is put behind it. [`Completion`] decides
//! after each reply whether to ask again. It never loses text that it has.
use vstd::prelude::*;

use crate::llm::{
    copy_messages, messages_view, plain_message, FinishReason, LlmError, LlmMessage, LlmRole,
    MessageView, MAX_CONTINUATION_OUTPUT_CHARS,
};
use crate::text::{byte_len, byte_prefix, fit_bytes, lemma_byte_prefix, longer_than_bytes};
use crate::wire::LlmClient;

verus! {

/// The user turn that asks for a continuation.
pub const CONTINUATION_NUDGE: &'static str =
    "Continue exactly where you left off. Do not repeat or summarize.";

/// A text completion in progress.
#[derive(Debug)]
pub struct Completion {
    base: Vec<LlmMessage>,
    max_rounds: u32,
    text: String,
    round: u32,
    started: bool,
}

/// The mathematical value of a [`Completion`].
pub struct Progress {
    /// The conversation that is being answered.
    pub base: Seq<MessageView>,
    /// How many continuations are allowed.
    pub max_rounds: nat,
    /// The text so far.
    pub text: Seq<char>,
    /// How many continuations were asked for.
    pub round: nat,
    /// Has a reply come?
    pub started: bool,
}

/// What came of a request.
pub enum Reply {
    /// A text, and whether the token limit cut it off.
    Text(Seq<char>, bool),
    /// Nothing.
    Failed,
}

/// What to do next.
#[derive(Debug)]
pub enum CompletionStep {
    /// Send these messages and hand the reply back.
    Call(Vec<LlmMessage>),
    /// The text is complete.
    Done(String),
    /// The first request failed.
    Failed(LlmError),
}

/// The mathematical value of a [`CompletionStep`].
pub enum StepView {
    Call(Seq<MessageView>),
    Done(Seq<char>),
    Failed,
}

impl View for CompletionStep {
    type V = StepView;

    open spec fn view(&self) -> StepView {
        match self {
            CompletionStep::Call(ms) => StepView::Call(messages_view(ms@)),
            CompletionStep::Done(s) => StepView::Done(s@),
            CompletionStep::Failed(_) => StepView::Failed,
        }
    }
}

/// The text as it is handed out: cut to the size limit between two characters.
pub open spec fn capped(text: Seq<char>) -> Seq<char> {
    byte_prefix(text, MAX_CONTINUATION_OUTPUT_CHARS as nat)
}

/// The messages that ask for what follows `text`.
pub open spec fn continuation_of(base: Seq<MessageView>, text: Seq<char>) -> Seq<MessageView> {
    base.push(plain_message(LlmRole::Assistant, text)).push(
        plain_message(LlmRole::User, CONTINUATION_NUDGE@),
    )
}

/// Is `text`, which the token limit cut off, to be continued after `round` rounds?
pub open spec fn goes_on(p: Progress, text: Seq<char>, cut_off: bool) -> bool {
    cut_off && p.round < p.max_rounds && byte_len(text) < MAX_CONTINUATION_OUTPUT_CHARS
}

/// What a reply makes of a completion.
pub open spec fn advance(p: Progress, reply: Reply) -> (Progress, StepView) {
    match reply {
        Reply::Text(more, cut_off) => {
            let text = p.text + more;
            if goes_on(p, text, cut_off) {
                (
                    Progress { text, round: p.round + 1, started: true, ..p },
                    StepView::Call(continuation_of(p.base, text)),
                )
            } else {
                (Progress { text, started: true, ..p }, StepView::Done(capped(text)))
            }
        },
        Reply::Failed => if p.started {
            (p, StepView::Done(capped(p.text)))
        } else {
            (p, StepView::Failed)
        },
    }
}

/// The value of what came of a request.
pub open spec fn reply_view(r: Result<(String, FinishReason), LlmError>) -> Reply {
    match r {
        Ok((text, reason)) => Reply::Text(text@, reason is Length),
        Err(_) => Reply::Failed,
    }
}

impl View for Completion {
    type V = Progress;

    closed spec fn view(&self) -> Progress {
        Progress {
            base: messages_view(self.base@),
            max_rounds: self.max_rounds as nat,
            text: self.text@,
            round: self.round as nat,
            started: self.started,
        }
    }
}

/// A completion to which nothing has happened.
pub open spec fn fresh(base: Seq<MessageView>, max_rounds: nat) -> Progress {
    Progress { base, max_rounds, text: Seq::empty(), round: 0, started: false }
}

impl Completion {
    /// A completion of `messages` with up to `max_rounds` continuations. The first
    /// request sends the messages as they are.
    pub fn new(messages: &[LlmMessage], max_rounds: u32) -> (r: (Completion, CompletionStep))
        ensures
            r.0@ == fresh(messages_view(messages@), max_rounds as nat),
            r.1@ == StepView::Call(messages_view(messages@)),
    {
        (
            Completion {
                base: copy_messages(messages),
                max_rounds,
                text: String::new(),
                round: 0,
                started: false,
            },
            CompletionStep::Call(copy_messages(messages)),
        )
    }

    /// Takes what came of the last request. An error of the first request is the
    /// result; an error later on ends the completion with the text so far.
    pub fn on_reply(&mut self, reply: Result<(String, FinishReason), LlmError>) -> (r:
        CompletionStep)
        ensures
            (final(self)@, r@) == advance(old(self)@, reply_view(reply)),
            r is Failed ==> reply is Err && r->Failed_0 == reply->Err_0,
    {
        match reply {
            Ok((more, reason)) => {
                self.started = true;
                self.text.append(more.as_str());
                let full = !longer_than_bytes(
                    self.text.as_str(),
                    MAX_CONTINUATION_OUTPUT_CHARS - 1,
                );
                if reason.is_length() && self.round < self.max_rounds && full {
                    self.round = self.round + 1;
                    let mut next = copy_messages(self.base.as_slice());
                    let ghost start = next@;
                    next.push(LlmMessage::assistant(self.text.as_str()));
                    next.push(LlmMessage::user(CONTINUATION_NUDGE));
                    assert(messages_view(next@) =~= continuation_of(
                        messages_view(start),
                        self.text@,
                    ));
                    CompletionStep::Call(next)
                } else {
                    CompletionStep::Done(
                        fit_bytes(self.text.as_str(), MAX_CONTINUATION_OUTPUT_CHARS),
                    )
                }
            },
            Err(e) => if self.started {
                CompletionStep::Done(fit_bytes(self.text.as_str(), MAX_CONTINUATION_OUTPUT_CHARS))
            } else {
                CompletionStep::Failed(e)
            },
        }
    }
}

impl LlmClient {
    /// Begins to complete `messages` with up to `max_rounds` continuations. Each call is sent
    /// as [`LlmClient::complete_once`] says.
    pub fn complete(&self, messages: &[LlmMessage], max_rounds: u32) -> (r: (
        Completion,
        CompletionStep,
    ))
        ensures
            r.0@ == fresh(messages_view(messages@), max_rounds as nat),
            r.1@ == StepView::Call(messages_view(messages@)),
    {
        Completion::new(messages, max_rounds)
    }
}

// ---------------------------------------------------------------------------
// Laws
// ---------------------------------------------------------------------------

/// The state after the first `n` replies, and the last step, where each of them
/// answers a call.
pub open spec fn run(p: Progress, replies: Seq<Reply>, n: nat) -> (Progress, StepView)
    decreases n,
{
    if n == 0 {
        (p, StepView::Call(p.base))
    } else {
        let (q, _) = run(p, replies, (n - 1) as nat);
        advance(q, replies[n - 1])
    }
}

/// All steps before the last of `n` replies asked for another request.
pub open spec fn calls_until(p: Progress, replies: Seq<Reply>, n: nat) -> bool {
    forall|k: nat| k < n ==> (#[trigger] run(p, replies, k)).1 is Call
}

/// The texts of the first `n` replies, one behind the other.
pub open spec fn texts_of(replies: Seq<Reply>, n: nat) -> Seq<char>
    decreases n,
{
    if n == 0 {
        Seq::empty()
    } else {
        match replies[n - 1] {
            Reply::Text(t, _) => texts_of(replies, (n - 1) as nat) + t,
            Reply::Failed => texts_of(replies, (n - 1) as nat),
        }
    }
}

proof fn lemma_run(base: Seq<MessageView>, max_rounds: nat, replies: Seq<Reply>, n: nat)
    requires
        n <= replies.len(),
        calls_until(fresh(base, max_rounds), replies, n),
    ensures
        ({
            let (p, step) = run(fresh(base, max_rounds), replies, n);
            &&& p.base == base
            &&& p.max_rounds == max_rounds
            &&& p.round <= max_rounds
            &&& p.text == texts_of(replies, n)
            &&& step is Call && n > 0 ==> p.round == n && p.started
            &&& n == 0 ==> p.round == 0 && !p.started
        }),
    decreases n,
{
    if n > 0 {
        let m = (n - 1) as nat;
        assert(calls_until(fresh(base, max_rounds), replies, m)) by {
            assert forall|k: nat| k < m implies (#[trigger] run(
                fresh(base, max_rounds),
                replies,
                k,
            )).1 is Call by {}
        }
        lemma_run(base, max_rounds, replies, m);
        assert(run(fresh(base, max_rounds), replies, m).1 is Call);
        let q = run(fresh(base, max_rounds), replies, m).0;
        match replies[m as int] {
            Reply::Text(t, c) => {
                assert(q.text + t == texts_of(replies, n));
            },
            Reply::Failed => {},
        }
    }
}

/// No completion sends more than one request and its continuations: after
/// `max_rounds + 1` replies it has ended.
pub proof fn law_requests_are_bounded(
    base: Seq<MessageView>,
    max_rounds: nat,
    replies: Seq<Reply>,
)
    requires
        replies.len() == max_rounds + 1,
        calls_until(fresh(base, max_rounds), replies, replies.len()),
    ensures
        !(run(fresh(base, max_rounds), replies, replies.len()).1 is Call),
{
    lemma_run(base, max_rounds, replies, replies.len());
}

/// A completion ends in an error exactly where its first request failed; else it ends
/// with the texts of its replies, one behind the other, cut to the size limit.
pub proof fn law_partial_text_is_kept(
    base: Seq<MessageView>,
    max_rounds: nat,
    replies: Seq<Reply>,
)
    requires
        replies.len() > 0,
        calls_until(fresh(base, max_rounds), replies, replies.len()),
        !(run(fresh(base, max_rounds), replies, replies.len()).1 is Call),
    ensures
        run(fresh(base, max_rounds), replies, replies.len()).1 == if replies.len() == 1
            && replies[0] is Failed {
            StepView::Failed
        } else {
            StepView::Done(capped(texts_of(replies, replies.len())))
        },
{
    let n = replies.len();
    let m = (n - 1) as nat;
    lemma_run(base, max_rounds, replies, n);
    assert(calls_until(fresh(base, max_rounds), replies, m)) by {
        assert forall|k: nat| k < m implies (#[trigger] run(
            fresh(base, max_rounds),
            replies,
            k,
        )).1 is Call by {}
    }
    lemma_run(base, max_rounds, replies, m);
    assert(run(fresh(base, max_rounds), replies, m).1 is Call);
}

/// What is handed out never takes more bytes than the size limit, and is a beginning of
/// the text.
pub proof fn law_output_is_bounded(text: Seq<char>)
    ensures
        byte_len(capped(text)) <= MAX_CONTINUATION_OUTPUT_CHARS,
        exists|k: int| 0 <= k <= text.len() && capped(text) == #[trigger] text.take(k),
{
    let k = lemma_byte_prefix(text, MAX_CONTINUATION_OUTPUT_CHARS as nat);
}

// ---------------------------------------------------------------------------
// What a completion is for
// ---------------------------------------------------------------------------

/// A continuation shows the model where it left off: the request holds the conversation as it
/// is, behind it one message of the assistant with all text that came so far, and at the end
/// one message of the user, which is the nudge.
pub proof fn law_continuation_shows_what_came(
    base: Seq<MessageView>,
    max_rounds: nat,
    replies: Seq<Reply>,
    n: nat,
)
    requires
        0 < n <= replies.len(),
        calls_until(fresh(base, max_rounds), replies, n),
        run(fresh(base, max_rounds), replies, n).1 is Call,
    ensures
        ({
            let sent = run(fresh(base, max_rounds), replies, n).1->Call_0;
            let k = base.len() as int;
            &&& sent.len() == k + 2
            &&& sent.take(k) == base
            &&& sent[k].role == LlmRole::Assistant
            &&& sent[k].content == texts_of(replies, n)
            &&& sent[k].tool_call_id is None && sent[k].tool_calls is None
            &&& sent[k + 1].role == LlmRole::User
            &&& sent[k + 1].content == CONTINUATION_NUDGE@
            &&& sent[k + 1].tool_call_id is None && sent[k + 1].tool_calls is None
        }),
{
    lemma_run(base, max_rounds, replies, n);
    let m = (n - 1) as nat;
    assert(calls_until(fresh(base, max_rounds), replies, m)) by {
        assert forall|k: nat| k < m implies (#[trigger] run(
            fresh(base, max_rounds),
            replies,
            k,
        )).1 is Call by {}
    }
    lemma_run(base, max_rounds, replies, m);
    let sent = run(fresh(base, max_rounds), replies, n).1->Call_0;
    assert(sent.take(base.len() as int) =~= base);
}

/// A text is continued exactly where the token limit cut it off, continuations are left, and
/// the text has not reached the size limit.
pub proof fn law_cut_off_text_is_continued(p: Progress, more: Seq<char>, cut_off: bool)
    ensures
        advance(p, Reply::Text(more, cut_off)).1 is Call <==> cut_off && p.round < p.max_rounds
            && byte_len(p.text + more) < MAX_CONTINUATION_OUTPUT_CHARS,
        advance(p, Reply::Text(more, cut_off)).0.text == p.text + more,
        advance(p, Reply::Text(more, cut_off)).0.base == p.base,
        !(advance(p, Reply::Failed).1 is Call),
{
}

/// What is handed out is the whole text where it fits, and else as much of its beginning as
/// fits, cut between two characters.
pub proof fn law_output_is_as_much_as_fits(text: Seq<char>)
    ensures
        byte_len(text) <= MAX_CONTINUATION_OUTPUT_CHARS ==> capped(text) == text,
        byte_len(text) > MAX_CONTINUATION_OUTPUT_CHARS ==> exists|k: int|
            0 <= k < text.len() && capped(text) == #[trigger] text.take(k) && byte_len(text.take(k))
                <= MAX_CONTINUATION_OUTPUT_CHARS && byte_len(text.take(k + 1))
                > MAX_CONTINUATION_OUTPUT_CHARS,
{
    let k = lemma_byte_prefix(text, MAX_CONTINUATION_OUTPUT_CHARS as nat);
    assert(text.take(text.len() as int) =~= text);
    if byte_len(text) > MAX_CONTINUATION_OUTPUT_CHARS {
        assert(capped(text) == text.take(k));
    }
}

} // verus!
