//! One turn of an agent.
//!
//! A message makes a turn: it is written to the journal, remembered and felt; a few
//! messages of the operator are answered directly; everything else is thought about; and
//! what came of it is told, unless the agent is in no state to speak or the turn is only
//! replayed. [`Turn`] decides each step. The caller performs the [`TurnRequest`] that it is
//! given and reports what came of it.
use vstd::prelude::*;

use crate::error::{error_reply, recovery_fallback_reply_for_error, FamilyClawError};
use crate::identity::{
    answer_to_operator, brief_ping_reply, from_operator, identity_guard_prompt, is_ping,
    is_roleplay_noise, law_filter_keeps_the_rest, operator_diagnostic_reply, without_noise,
    RecalledMemory, IDENTITY_GUARD,
};
use crate::llm::opt_view;
use crate::message::{reply_target, should_remember, target_of, BusMessage, MessageOrigin};
use crate::resume::{command_in, is_command, plan_operator_command, CommandPlan};
use crate::text::{
    concat2, concat3, concat4, concat5, copy_of, decimal, decimal_text, first_chars, lowercase,
    occurs, occurs_at, take_chars,
};
use crate::think::ThinkOutcome;

verus! {

// ---------------------------------------------------------------------------
// The system prompt
// ---------------------------------------------------------------------------

/// What a model with tools is told.
pub const TOOL_CONTRACT: &'static str =
    "\n[TOOL CONTRACT]\nDisk and web changes require tool calls in THIS turn. Never claim DONE/evidence/file paths without a tool_result. If unsure, say what tool you will call next.\n";

/// The line of a memory.
pub open spec fn memory_line(number: nat, m: RecalledMemory) -> Seq<char> {
    "  "@ + decimal(number) + ". (relevance: "@ + m.relevance@ + ") "@ + m.content@ + "\n"@
}

/// The lines of the first `n` memories.
pub open spec fn memory_lines(memories: Seq<RecalledMemory>, n: nat) -> Seq<char>
    decreases n,
{
    if n == 0 {
        Seq::empty()
    } else {
        memory_lines(memories, (n - 1) as nat) + memory_line(n, memories[n - 1])
    }
}

/// The system prompt: who the agent is, the guard where the operator speaks, the memories
/// that fit, and what a model with tools is told.
pub open spec fn prompt_text(
    essence: Seq<char>,
    guard: Seq<char>,
    memories: Seq<RecalledMemory>,
    has_actions: bool,
) -> Seq<char> {
    let recalled = if memories.len() > 0 {
        "\n\n[RELEVANT MEMORIES FROM ETERNAL THREAD]:\n"@ + memory_lines(memories, memories.len())
            + "[END MEMORIES]\n"@
    } else {
        Seq::empty()
    };
    essence + guard + recalled + if has_actions {
        TOOL_CONTRACT@
    } else {
        Seq::empty()
    }
}

/// The memories that the prompt of a message holds: where the operator speaks, those that
/// do not look like roleplay.
pub open spec fn recalled_for(
    memories: Seq<RecalledMemory>,
    operator: Option<u64>,
    origin: Option<MessageOrigin>,
) -> Seq<RecalledMemory> {
    if from_operator(operator, origin) {
        without_noise(memories)
    } else {
        memories
    }
}

/// Builds the system prompt of a thought.
pub fn build_think_context(
    essence: &str,
    memories: Vec<RecalledMemory>,
    operator: Option<u64>,
    origin: &Option<MessageOrigin>,
    has_actions: bool,
) -> (r: String)
    ensures
        r@ == prompt_text(
            essence@,
            if from_operator(operator, *origin) {
                IDENTITY_GUARD@
            } else {
                Seq::empty()
            },
            recalled_for(memories@, operator, *origin),
            has_actions,
        ),
{
    let ghost all = memories@;
    let kept = crate::identity::filter_memories_for_operator(memories, operator, origin);
    let guard = identity_guard_prompt(operator, origin);
    let mut out = concat2(essence, guard.as_str());
    let ghost head = out@;
    if kept.len() > 0 {
        out.append("\n\n[RELEVANT MEMORIES FROM ETERNAL THREAD]:\n");
        let ghost opened = out@;
        let mut i: usize = 0;
        assert(opened + memory_lines(kept@, 0) =~= opened);
        while i < kept.len()
            invariant
                i <= kept@.len(),
                out@ == opened + memory_lines(kept@, i as nat),
            decreases kept@.len() - i,
        {
            let ghost before = out@;
            assert(memory_lines(kept@, (i + 1) as nat) == memory_lines(kept@, i as nat)
                + memory_line((i + 1) as nat, kept@[i as int]));
            out.append("  ");
            out.append(decimal_text(i as u64 + 1).as_str());
            out.append(". (relevance: ");
            out.append(kept[i].relevance.as_str());
            out.append(") ");
            out.append(kept[i].content.as_str());
            out.append("\n");
            assert(out@ =~= before + memory_line((i + 1) as nat, kept@[i as int]));
            assert(out@ =~= opened + memory_lines(kept@, (i + 1) as nat));
            i += 1;
        }
        out.append("[END MEMORIES]\n");
        assert(out@ =~= head + ("\n\n[RELEVANT MEMORIES FROM ETERNAL THREAD]:\n"@ + memory_lines(
            kept@,
            kept@.len(),
        ) + "[END MEMORIES]\n"@));
    } else {
        assert(out@ =~= head + Seq::<char>::empty());
    }
    let ghost body = out@;
    if has_actions {
        out.append(TOOL_CONTRACT);
    } else {
        assert(out@ =~= body + Seq::<char>::empty());
    }
    out
}

// ---------------------------------------------------------------------------
// The state
// ---------------------------------------------------------------------------

/// What the governor of an agent's emotions decides.
#[derive(Debug, Clone, Copy, PartialEq, Eq, Structural)]
pub enum ActionDecision {
    /// Act.
    Act,
    /// Engage warmly.
    EngageWarmly,
    /// Think, and do not speak.
    Reflect,
    /// Neither think nor speak.
    Hesitate,
}

/// What is known of a turn when it begins.
#[derive(Debug)]
pub struct TurnSetup {
    /// The number of the turn.
    pub turn: u64,
    /// The name of the agent.
    pub agent_name: String,
    /// The message.
    pub message: BusMessage,
    /// Where it came from.
    pub origin: Option<MessageOrigin>,
    /// Where replies go that have no origin.
    pub reply_target: Option<String>,
    /// The user number of the operator.
    pub operator: Option<u64>,
    /// Is there a model?
    pub has_model: bool,
    /// Can actions be taken?
    pub has_actions: bool,
    /// Is there a governor?
    pub has_governor: bool,
    /// Does the message ask for the operator's status report?
    pub asks_status: bool,
    /// Does the operator tell the agent to go ahead or to go on?
    pub asks_execute: bool,
}

/// What the turn waits for.
#[derive(Debug, Clone, Copy, PartialEq, Eq, Structural)]
pub enum TurnStage {
    Record,
    Remember,
    Feel,
    Bootstrap,
    Status,
    Command,
    JournalFast,
    JournalQuiet,
    ThinkWithActions,
    ThinkOnce,
    JournalThought,
    JournalSuspension,
    Settle,
    Done,
}

/// The mathematical state of a [`Turn`].
pub struct TurnState {
    /// What was known when the turn began.
    pub setup: TurnSetup,
    /// The summary that the journal holds.
    pub summary: Seq<char>,
    /// Is this a pulse that a governor keeps from being thought about?
    pub filtered: bool,
    /// Does the governor forbid to think?
    pub hesitates: bool,
    /// Is the turn replayed from the journal?
    pub replaying: bool,
    /// The reply of the operator's bootstrap.
    pub bootstrap: Option<Seq<char>>,
    /// The operator's status report.
    pub status: Option<Seq<char>>,
    /// The reply to an operator's command.
    pub command: Option<Seq<char>>,
    /// What the turn came to, in words.
    pub thought: Option<Seq<char>>,
    /// The approval that the turn waits for, with its summary.
    pub suspension: Option<(Seq<char>, Seq<char>)>,
    /// What the turn waits for.
    pub stage: TurnStage,
}

/// The mathematical value of a [`TurnRequest`].
pub enum TurnView {
    Record { step: Seq<char>, remembered: bool },
    Remember { turn_key: Seq<char> },
    Feel,
    Bootstrap { step: Seq<char> },
    Status { step: Seq<char> },
    Command { approve: bool, id: Seq<char> },
    Journal { step: Seq<char>, text: Seq<char> },
    ThinkWithActions { announce: bool },
    ThinkOnce { announce: bool },
    Settle,
    Finish {
        history: Option<Seq<char>>,
        outbound: Option<(Seq<char>, Seq<char>)>,
        suppressed: bool,
        summary: Seq<char>,
        next_turn: nat,
    },
    Failed { message: Seq<char> },
}

/// What holds of every state of a turn: until the thought is over there is none, and a turn
/// does not both say something and wait for an approval.
pub open spec fn turn_valid(s: TurnState) -> bool {
    &&& s.thought is None || s.suspension is None
    &&& match s.stage {
        TurnStage::JournalFast => s.suspension is None,
        TurnStage::JournalSuspension => s.thought is None,
        TurnStage::Settle => true,
        TurnStage::Done => true,
        _ => s.thought is None && s.suspension is None,
    }
}

/// How many requests may still come at most: a turn always ends.
pub open spec fn steps_left(s: TurnState) -> nat {
    match s.stage {
        TurnStage::Record => 10,
        TurnStage::Remember => 9,
        TurnStage::Feel => 8,
        TurnStage::Bootstrap => 7,
        TurnStage::Status => 6,
        TurnStage::Command => 5,
        TurnStage::ThinkWithActions => 4,
        TurnStage::ThinkOnce => 4,
        TurnStage::JournalFast => 3,
        TurnStage::JournalQuiet => 3,
        TurnStage::JournalThought => 3,
        TurnStage::JournalSuspension => 3,
        TurnStage::Settle => 2,
        TurnStage::Done => 1,
    }
}

/// The request asks for what the stage waits for, so that whoever answers it can always go on.
pub open spec fn waits_for(stage: TurnStage, request: TurnView) -> bool {
    match stage {
        TurnStage::Record => request is Record,
        TurnStage::Remember => request is Remember,
        TurnStage::Feel => request is Feel,
        TurnStage::Bootstrap => request is Bootstrap,
        TurnStage::Status => request is Status,
        TurnStage::Command => request is Command,
        TurnStage::JournalFast => request is Journal,
        TurnStage::JournalQuiet => request is Journal,
        TurnStage::JournalThought => request is Journal,
        TurnStage::JournalSuspension => request is Journal,
        TurnStage::ThinkWithActions => request is ThinkWithActions,
        TurnStage::ThinkOnce => request is ThinkOnce,
        TurnStage::Settle => request is Settle,
        TurnStage::Done => request is Finish || request is Failed,
    }
}

/// The journal step of a turn.
pub open spec fn turn_step(turn: nat) -> Seq<char> {
    "turn-"@ + decimal(turn)
}

/// The key under which a turn is remembered once.
pub open spec fn turn_key(agent: Seq<char>, turn: nat) -> Seq<char> {
    agent + ":"@ + turn_step(turn)
}

/// Is the model to be asked, as far as the agent's state goes?
pub open spec fn may_think(s: TurnState) -> bool {
    s.setup.has_model && !s.filtered && !s.hesitates
}

/// The text that is no answer where it is empty.
pub open spec fn non_empty(text: Seq<char>) -> Option<Seq<char>> {
    if text.len() > 0 {
        Some(text)
    } else {
        None
    }
}

/// The turn waits to be settled.
pub open spec fn to_settle(s: TurnState) -> (TurnState, TurnView) {
    (TurnState { stage: TurnStage::Settle, ..s }, TurnView::Settle)
}

/// The direct answers: of the bootstrap, of a command, of the status report, and, where the
/// model may be asked in a fresh turn, to a question of the operator or to a brief ping.
pub open spec fn fast_reply(s: TurnState) -> Option<Seq<char>> {
    let words = s.setup.message.words();
    if s.bootstrap is Some {
        s.bootstrap
    } else if s.command is Some {
        s.command
    } else if s.status is Some {
        s.status
    } else if may_think(s) && !s.replaying && words is Some {
        if from_operator(s.setup.operator, s.setup.origin) && answer_to_operator(
            words->Some_0,
        ) is Some {
            answer_to_operator(words->Some_0)
        } else if is_ping(words->Some_0, s.setup.agent_name@) {
            Some("Tässä! ✦ ("@ + s.setup.agent_name@ + " kuulee — mitä tarvitset?)"@)
        } else {
            None
        }
    } else {
        None
    }
}

/// The thought: a direct answer, where there is one; nothing without a model; what the
/// journal holds, where the model is not to be asked or was asked before; else what the
/// model says.
pub open spec fn to_thought(s: TurnState) -> (TurnState, TurnView) {
    let step = turn_step(s.setup.turn as nat) + "-think"@;
    match fast_reply(s) {
        Some(text) => {
            let t = TurnState { thought: Some(text), ..s };
            if s.replaying {
                to_settle(t)
            } else {
                (
                    TurnState { stage: TurnStage::JournalFast, ..t },
                    TurnView::Journal { step, text },
                )
            }
        },
        None => if !s.setup.has_model {
            to_settle(s)
        } else if s.filtered || s.hesitates {
            (
                TurnState { stage: TurnStage::JournalQuiet, ..s },
                TurnView::Journal { step, text: Seq::empty() },
            )
        } else if s.setup.has_actions {
            (
                TurnState { stage: TurnStage::ThinkWithActions, ..s },
                TurnView::ThinkWithActions { announce: !s.replaying },
            )
        } else if s.replaying {
            (
                TurnState { stage: TurnStage::JournalQuiet, ..s },
                TurnView::Journal { step, text: Seq::empty() },
            )
        } else {
            (
                TurnState { stage: TurnStage::ThinkOnce, ..s },
                TurnView::ThinkOnce { announce: true },
            )
        },
    }
}

/// A command of the operator is followed, in a fresh turn.
pub open spec fn to_command(s: TurnState) -> (TurnState, TurnView) {
    if is_command(s.setup.message, s.setup.operator, s.setup.origin, s.replaying) {
        let command = command_in(s.setup.message.words()->Some_0)->Some_0;
        if s.setup.has_actions {
            (
                TurnState { stage: TurnStage::Command, ..s },
                TurnView::Command { approve: command.0, id: command.1 },
            )
        } else {
            to_thought(TurnState { command: Some("ActionRuntime ei ole kytketty."@), ..s })
        }
    } else {
        to_thought(s)
    }
}

/// The operator's status report, in a fresh turn that has had no bootstrap.
pub open spec fn to_status(s: TurnState) -> (TurnState, TurnView) {
    if s.bootstrap is None && may_think(s) && !s.replaying && s.setup.asks_status {
        (
            TurnState { stage: TurnStage::Status, ..s },
            TurnView::Status { step: turn_step(s.setup.turn as nat) },
        )
    } else {
        to_command(s)
    }
}

/// The turn is in the journal, or could not be written there.
pub open spec fn after_record(
    s: TurnState,
    recorded: Result<(bool, Seq<char>), Seq<char>>,
) -> (TurnState, TurnView) {
    match recorded {
        Err(e) => (
            TurnState { stage: TurnStage::Done, ..s },
            TurnView::Failed { message: "durable turn step failed: "@ + e },
        ),
        Ok((remembered, summary)) => {
            let t = TurnState { summary, ..s };
            if remembered {
                (
                    TurnState { stage: TurnStage::Remember, ..t },
                    TurnView::Remember {
                        turn_key: turn_key(s.setup.agent_name@, s.setup.turn as nat),
                    },
                )
            } else {
                (TurnState { stage: TurnStage::Feel, ..t }, TurnView::Feel)
            }
        },
    }
}

/// The turn is remembered, or could not be.
pub open spec fn after_remember(s: TurnState, error: Option<Seq<char>>) -> (TurnState, TurnView) {
    match error {
        Some(e) => (
            TurnState { stage: TurnStage::Done, ..s },
            TurnView::Failed { message: "remember failed: "@ + e },
        ),
        None => (TurnState { stage: TurnStage::Feel, ..s }, TurnView::Feel),
    }
}

/// The message is felt. A governor keeps pulses from being thought about, and an agent that
/// hesitates from thinking at all. In a fresh turn, an order of the operator to go ahead or
/// to go on starts the bootstrap.
pub open spec fn after_feel(s: TurnState, decision: ActionDecision, replaying: bool) -> (
    TurnState,
    TurnView,
) {
    let t = TurnState {
        filtered: s.setup.has_governor && s.setup.message is EmotionPulse,
        hesitates: s.setup.has_governor && decision == ActionDecision::Hesitate,
        replaying,
        ..s
    };
    if may_think(t) && !replaying && s.setup.has_actions && s.setup.asks_execute {
        (
            TurnState { stage: TurnStage::Bootstrap, ..t },
            TurnView::Bootstrap { step: turn_step(s.setup.turn as nat) },
        )
    } else {
        to_status(t)
    }
}

/// What a thought came to.
pub open spec fn after_thought(s: TurnState, outcome: Result<ThinkOutcome, FamilyClawError>) -> (
    TurnState,
    TurnView,
) {
    let name = turn_step(s.setup.turn as nat);
    match outcome {
        Err(e) => to_settle(
            TurnState {
                thought: if s.stage == TurnStage::ThinkWithActions {
                    non_empty(error_reply(e))
                } else {
                    Some(error_reply(e))
                },
                ..s
            },
        ),
        Ok(ThinkOutcome::NoReply) => to_settle(s),
        Ok(ThinkOutcome::Reply(text)) => if s.stage == TurnStage::ThinkWithActions {
            to_settle(TurnState { thought: non_empty(text@), ..s })
        } else {
            (
                TurnState { stage: TurnStage::JournalThought, ..s },
                TurnView::Journal { step: name + "-think"@, text: text@ },
            )
        },
        Ok(ThinkOutcome::Suspended { approval_id, redacted_summary }) => {
            let t = TurnState { suspension: Some((approval_id@, redacted_summary@)), ..s };
            if s.stage == TurnStage::ThinkWithActions {
                to_settle(t)
            } else {
                (
                    TurnState { stage: TurnStage::JournalSuspension, ..t },
                    TurnView::Journal {
                        step: name + "-suspend"@,
                        text: approval_id@ + "|"@ + redacted_summary@,
                    },
                )
            }
        },
    }
}

/// The journal gave a thought back, or failed.
pub open spec fn after_journal(s: TurnState, stored: Result<Seq<char>, Seq<char>>) -> (
    TurnState,
    TurnView,
) {
    if s.stage == TurnStage::JournalQuiet || s.stage == TurnStage::JournalThought {
        to_settle(
            TurnState {
                thought: match stored {
                    Ok(text) => non_empty(text),
                    Err(_) => None,
                },
                ..s
            },
        )
    } else {
        to_settle(s)
    }
}

/// What a user is told where a turn waits for an approval.
pub open spec fn suspended_text(approval_id: Seq<char>, summary: Seq<char>) -> Seq<char> {
    "Turvapysäytys: toiminto odottaa hyväksyntää ("@ + summary + "). Hyväksy: APPROVE "@
        + approval_id + " tai hylkää: DENY "@ + approval_id
}

/// What a user is told where a turn waits for an approval.
pub fn suspended_approval_user_reply(approval_id: &str, summary: &str) -> (r: String)
    ensures
        r@ == suspended_text(approval_id@, summary@),
{
    let head = concat4(
        "Turvapysäytys: toiminto odottaa hyväksyntää (",
        summary,
        "). Hyväksy: APPROVE ",
        approval_id,
    );
    concat3(head.as_str(), " tai hylkää: DENY ", approval_id)
}

/// The summary of a turn that is settled: what it came to, in short.
pub open spec fn final_summary(s: TurnState) -> Seq<char> {
    if s.thought is Some && s.thought->Some_0.len() > 0 {
        s.summary + " | thought: "@ + first_chars(s.thought->Some_0, 160)
    } else if s.suspension is Some {
        s.summary + " | suspended(approval="@ + s.suspension->Some_0.0 + "): "@
            + s.suspension->Some_0.1
    } else {
        s.summary
    }
}

/// The governor keeps the agent from speaking.
pub open spec fn is_silenced(s: TurnState, decision: ActionDecision) -> bool {
    s.setup.has_governor && (decision == ActionDecision::Hesitate || decision
        == ActionDecision::Reflect)
}

/// What is sent: the thought, else the word that the turn waits for an approval. A replayed
/// turn sends nothing, and neither does an agent that is silenced. An empty text or target is
/// none.
pub open spec fn outbound(s: TurnState, decision: ActionDecision, replaying: bool) -> Option<
    (Seq<char>, Seq<char>),
> {
    let text = if s.thought is Some && s.thought->Some_0.len() > 0 {
        s.thought
    } else {
        match s.suspension {
            Some((id, summary)) => Some(suspended_text(id, summary)),
            None => None,
        }
    };
    let target = target_of(s.setup.origin, s.setup.reply_target);
    if replaying || is_silenced(s, decision) || text is None || target is None
        || text->Some_0.len() == 0 || target->Some_0.len() == 0 {
        None
    } else {
        Some((target->Some_0, text->Some_0))
    }
}

/// The turn is settled.
pub open spec fn after_settle(s: TurnState, decision: ActionDecision, replaying: bool) -> (
    TurnState,
    TurnView,
) {
    (
        TurnState { stage: TurnStage::Done, ..s },
        TurnView::Finish {
            history: if replaying {
                None
            } else {
                s.thought
            },
            outbound: outbound(s, decision, replaying),
            suppressed: s.filtered || s.hesitates || is_silenced(s, decision),
            summary: final_summary(s),
            next_turn: (s.setup.turn + 1) as nat,
        },
    )
}

// ---------------------------------------------------------------------------
// The turn
// ---------------------------------------------------------------------------

/// What the caller has to do next.
#[derive(Debug)]
pub enum TurnRequest {
    /// Write the turn to the journal, or read it from there.
    Record {
        /// The step.
        step: String,
        /// Is the message to be remembered?
        remembered: bool,
    },
    /// Remember the message, once under this key.
    Remember {
        /// The key.
        turn_key: String,
    },
    /// Feel the message, and let the governor decide.
    Feel,
    /// Run the operator's bootstrap.
    Bootstrap {
        /// The step of the turn.
        step: String,
    },
    /// Make the operator's status report.
    Status {
        /// The step of the turn.
        step: String,
    },
    /// Follow a command on an approval.
    Command {
        /// Is it granted?
        approve: bool,
        /// The approval.
        id: String,
    },
    /// Write a text to the journal, or read it from there.
    Journal {
        /// The step.
        step: String,
        /// The text.
        text: String,
    },
    /// Think, with tools.
    ThinkWithActions {
        /// Is it to be announced?
        announce: bool,
    },
    /// Think, without tools.
    ThinkOnce {
        /// Is it to be announced?
        announce: bool,
    },
    /// Let the governor decide again.
    Settle,
    /// The turn is over.
    Finish {
        /// The reply that the conversation's history keeps. With it goes the metric of a
        /// turn that was completed.
        history: Option<String>,
        /// What is sent, and where to.
        outbound: Option<(String, String)>,
        /// Was the agent kept from thinking or from speaking?
        suppressed: bool,
        /// The summary of the turn.
        summary: String,
        /// The number of the next turn.
        next_turn: u64,
    },
    /// The turn failed.
    Failed(FamilyClawError),
}

/// The two texts, where there are some.
pub open spec fn opt_pair_view(p: Option<(String, String)>) -> Option<(Seq<char>, Seq<char>)> {
    match p {
        Some((a, b)) => Some((a@, b@)),
        None => None,
    }
}

impl View for TurnRequest {
    type V = TurnView;

    open spec fn view(&self) -> TurnView {
        match self {
            TurnRequest::Record { step, remembered } => TurnView::Record {
                step: step@,
                remembered: *remembered,
            },
            TurnRequest::Remember { turn_key } => TurnView::Remember { turn_key: turn_key@ },
            TurnRequest::Feel => TurnView::Feel,
            TurnRequest::Bootstrap { step } => TurnView::Bootstrap { step: step@ },
            TurnRequest::Status { step } => TurnView::Status { step: step@ },
            TurnRequest::Command { approve, id } => TurnView::Command {
                approve: *approve,
                id: id@,
            },
            TurnRequest::Journal { step, text } => TurnView::Journal { step: step@, text: text@ },
            TurnRequest::ThinkWithActions { announce } => TurnView::ThinkWithActions {
                announce: *announce,
            },
            TurnRequest::ThinkOnce { announce } => TurnView::ThinkOnce { announce: *announce },
            TurnRequest::Settle => TurnView::Settle,
            TurnRequest::Finish { history, outbound, suppressed, summary, next_turn } =>
                TurnView::Finish {
                history: opt_view(*history),
                outbound: opt_pair_view(*outbound),
                suppressed: *suppressed,
                summary: summary@,
                next_turn: *next_turn as nat,
            },
            TurnRequest::Failed(e) => TurnView::Failed { message: e.message() },
        }
    }
}

/// A turn in progress.
#[derive(Debug)]
pub struct Turn {
    setup: TurnSetup,
    summary: String,
    filtered: bool,
    hesitates: bool,
    replaying: bool,
    bootstrap: Option<String>,
    status: Option<String>,
    command: Option<String>,
    thought: Option<String>,
    suspension: Option<(String, String)>,
    stage: TurnStage,
}

impl View for Turn {
    type V = TurnState;

    closed spec fn view(&self) -> TurnState {
        TurnState {
            setup: self.setup,
            summary: self.summary@,
            filtered: self.filtered,
            hesitates: self.hesitates,
            replaying: self.replaying,
            bootstrap: opt_view(self.bootstrap),
            status: opt_view(self.status),
            command: opt_view(self.command),
            thought: opt_view(self.thought),
            suspension: opt_pair_view(self.suspension),
            stage: self.stage,
        }
    }
}

/// A turn to which nothing has happened.
pub open spec fn fresh_turn(setup: TurnSetup) -> TurnState {
    TurnState {
        setup,
        summary: Seq::empty(),
        filtered: false,
        hesitates: false,
        replaying: false,
        bootstrap: None,
        status: None,
        command: None,
        thought: None,
        suspension: None,
        stage: TurnStage::Record,
    }
}

impl Turn {
    /// What always holds of a turn.
    pub open spec fn wf(&self) -> bool {
        turn_valid(self@)
    }

    /// Begins a turn.
    pub fn new(setup: TurnSetup) -> (r: (Turn, TurnRequest))
        ensures
            r.0.wf(),
            waits_for(r.0@.stage, r.1@),
            r.0@ == fresh_turn(setup),
            r.1@ == (TurnView::Record {
                step: turn_step(setup.turn as nat),
                remembered: setup.message.words() is Some,
            }),
    {
        let step = concat2("turn-", decimal_text(setup.turn).as_str());
        let remembered = should_remember(&setup.message);
        (
            Turn {
                setup,
                summary: String::new(),
                filtered: false,
                hesitates: false,
                replaying: false,
                bootstrap: None,
                status: None,
                command: None,
                thought: None,
                suspension: None,
                stage: TurnStage::Record,
            },
            TurnRequest::Record { step, remembered },
        )
    }

    fn step(&self) -> (r: String)
        ensures
            r@ == turn_step(self@.setup.turn as nat),
    {
        concat2("turn-", decimal_text(self.setup.turn).as_str())
    }

    fn step_with(&self, suffix: &str) -> (r: String)
        ensures
            r@ == turn_step(self@.setup.turn as nat) + suffix@,
    {
        concat2(self.step().as_str(), suffix)
    }

    fn thinks(&self) -> (r: bool)
        ensures
            r == may_think(self@),
    {
        self.setup.has_model && !self.filtered && !self.hesitates
    }

    fn settle(&mut self) -> (r: TurnRequest)
        ensures
            (final(self)@, r@) == to_settle(old(self)@),
    {
        self.stage = TurnStage::Settle;
        TurnRequest::Settle
    }

    fn direct_answer(&self) -> (r: Option<String>)
        ensures
            opt_view(r) == fast_reply(self@),
    {
        if self.bootstrap.is_some() {
            return crate::llm::copy_opt(&self.bootstrap);
        }
        if self.command.is_some() {
            return crate::llm::copy_opt(&self.command);
        }
        if self.status.is_some() {
            return crate::llm::copy_opt(&self.status);
        }
        if self.thinks() && !self.replaying {
            match operator_diagnostic_reply(
                &self.setup.message,
                self.setup.operator,
                &self.setup.origin,
            ) {
                Some(text) => Some(text),
                None => brief_ping_reply(self.setup.agent_name.as_str(), &self.setup.message),
            }
        } else {
            None
        }
    }

    fn think(&mut self) -> (r: TurnRequest)
        requires
            old(self)@.thought is None,
        ensures
            (final(self)@, r@) == to_thought(old(self)@),
    {
        match self.direct_answer() {
            Some(text) => {
                self.thought = Some(copy_of(text.as_str()));
                if self.replaying {
                    self.settle()
                } else {
                    self.stage = TurnStage::JournalFast;
                    TurnRequest::Journal { step: self.step_with("-think"), text }
                }
            },
            None => if !self.setup.has_model {
                self.settle()
            } else if self.filtered || self.hesitates {
                self.stage = TurnStage::JournalQuiet;
                TurnRequest::Journal { step: self.step_with("-think"), text: String::new() }
            } else if self.setup.has_actions {
                self.stage = TurnStage::ThinkWithActions;
                TurnRequest::ThinkWithActions { announce: !self.replaying }
            } else if self.replaying {
                self.stage = TurnStage::JournalQuiet;
                TurnRequest::Journal { step: self.step_with("-think"), text: String::new() }
            } else {
                self.stage = TurnStage::ThinkOnce;
                TurnRequest::ThinkOnce { announce: true }
            },
        }
    }

    fn follow(&mut self) -> (r: TurnRequest)
        requires
            old(self)@.thought is None,
        ensures
            (final(self)@, r@) == to_command(old(self)@),
    {
        match plan_operator_command(
            &self.setup.message,
            self.setup.operator,
            &self.setup.origin,
            self.replaying,
            self.setup.has_actions,
        ) {
            CommandPlan::Nothing => self.think(),
            CommandPlan::NoRuntime(text) => {
                self.command = Some(text);
                self.think()
            },
            CommandPlan::Resume(id) => {
                self.stage = TurnStage::Command;
                TurnRequest::Command { approve: true, id }
            },
            CommandPlan::Deny(id) => {
                self.stage = TurnStage::Command;
                TurnRequest::Command { approve: false, id }
            },
        }
    }

    fn report(&mut self) -> (r: TurnRequest)
        requires
            old(self)@.thought is None,
        ensures
            (final(self)@, r@) == to_status(old(self)@),
    {
        if self.bootstrap.is_none() && self.thinks() && !self.replaying && self.setup.asks_status {
            self.stage = TurnStage::Status;
            TurnRequest::Status { step: self.step() }
        } else {
            self.follow()
        }
    }

    /// Takes what the journal holds of the turn: whether the message is to be remembered,
    /// and the summary.
    pub fn on_recorded(&mut self, recorded: Result<(bool, String), String>) -> (r: TurnRequest)
        requires
            old(self).wf(),
            old(self)@.stage == TurnStage::Record,
        ensures
            final(self).wf(),
            waits_for(final(self)@.stage, r@),
            steps_left(final(self)@) < steps_left(old(self)@),
            (final(self)@, r@) == after_record(
                old(self)@,
                match recorded {
                    Ok((b, s)) => Ok((b, s@)),
                    Err(e) => Err(e@),
                },
            ),
            r is Failed ==> r->Failed_0 is Bus,
    {
        match recorded {
            Err(e) => {
                self.stage = TurnStage::Done;
                TurnRequest::Failed(
                    FamilyClawError::Bus(concat2("durable turn step failed: ", e.as_str())),
                )
            },
            Ok((remembered, summary)) => {
                self.summary = summary;
                if remembered {
                    self.stage = TurnStage::Remember;
                    TurnRequest::Remember {
                        turn_key: concat3(
                            self.setup.agent_name.as_str(),
                            ":",
                            self.step().as_str(),
                        ),
                    }
                } else {
                    self.stage = TurnStage::Feel;
                    TurnRequest::Feel
                }
            },
        }
    }

    /// Takes whether the message could be remembered.
    pub fn on_remembered(&mut self, error: Option<String>) -> (r: TurnRequest)
        requires
            old(self).wf(),
            old(self)@.stage == TurnStage::Remember,
        ensures
            final(self).wf(),
            waits_for(final(self)@.stage, r@),
            steps_left(final(self)@) < steps_left(old(self)@),
            (final(self)@, r@) == after_remember(old(self)@, opt_view(error)),
            r is Failed ==> r->Failed_0 is Memory,
    {
        match error {
            Some(e) => {
                self.stage = TurnStage::Done;
                TurnRequest::Failed(
                    FamilyClawError::Memory(concat2("remember failed: ", e.as_str())),
                )
            },
            None => {
                self.stage = TurnStage::Feel;
                TurnRequest::Feel
            },
        }
    }

    /// Takes the decision of the governor, if there is one, and whether the turn is
    /// replayed.
    pub fn on_felt(&mut self, decision: ActionDecision, replaying: bool) -> (r: TurnRequest)
        requires
            old(self).wf(),
            old(self)@.stage == TurnStage::Feel,
        ensures
            final(self).wf(),
            waits_for(final(self)@.stage, r@),
            steps_left(final(self)@) < steps_left(old(self)@),
            (final(self)@, r@) == after_feel(old(self)@, decision, replaying),
    {
        let is_pulse = match &self.setup.message {
            BusMessage::EmotionPulse => true,
            _ => false,
        };
        let hesitates = match decision {
            ActionDecision::Hesitate => true,
            _ => false,
        };
        self.filtered = self.setup.has_governor && is_pulse;
        self.hesitates = self.setup.has_governor && hesitates;
        self.replaying = replaying;
        if self.thinks() && !replaying && self.setup.has_actions && self.setup.asks_execute {
            self.stage = TurnStage::Bootstrap;
            TurnRequest::Bootstrap { step: self.step() }
        } else {
            self.report()
        }
    }

    /// Takes the reply of the operator's bootstrap. One that failed has a reply too.
    pub fn on_bootstrapped(&mut self, reply: String) -> (r: TurnRequest)
        requires
            old(self).wf(),
            old(self)@.stage == TurnStage::Bootstrap,
        ensures
            final(self).wf(),
            waits_for(final(self)@.stage, r@),
            steps_left(final(self)@) < steps_left(old(self)@),
            (final(self)@, r@) == to_status(TurnState { bootstrap: Some(reply@), ..old(self)@ }),
    {
        self.bootstrap = Some(reply);
        self.report()
    }

    /// Takes the operator's status report, or why there is none.
    pub fn on_reported(&mut self, report: Result<String, String>) -> (r: TurnRequest)
        requires
            old(self).wf(),
            old(self)@.stage == TurnStage::Status,
        ensures
            final(self).wf(),
            waits_for(final(self)@.stage, r@),
            steps_left(final(self)@) < steps_left(old(self)@),
            (final(self)@, r@) == to_command(
                TurnState {
                    status: Some(
                        match report {
                            Ok(t) => t@,
                            Err(e) => "STATUS ERROR: "@ + e@,
                        },
                    ),
                    ..old(self)@
                },
            ),
    {
        self.status = Some(
            match report {
                Ok(t) => t,
                Err(e) => concat2("STATUS ERROR: ", e.as_str()),
            },
        );
        self.follow()
    }

    /// Takes the reply to the operator's command, or why it could not be followed.
    pub fn on_commanded(&mut self, reply: Result<String, String>) -> (r: TurnRequest)
        requires
            old(self).wf(),
            old(self)@.stage == TurnStage::Command,
        ensures
            final(self).wf(),
            waits_for(final(self)@.stage, r@),
            steps_left(final(self)@) < steps_left(old(self)@),
            (final(self)@, r@) == to_thought(
                TurnState {
                    command: Some(
                        match reply {
                            Ok(t) => t@,
                            Err(e) => "Approval command failed: "@ + e@,
                        },
                    ),
                    ..old(self)@
                },
            ),
    {
        self.command = Some(
            match reply {
                Ok(t) => t,
                Err(e) => concat2("Approval command failed: ", e.as_str()),
            },
        );
        self.think()
    }

    /// Takes what the thought came to.
    pub fn on_thought(&mut self, outcome: Result<ThinkOutcome, FamilyClawError>) -> (r: TurnRequest)
        requires
            old(self).wf(),
            old(self)@.stage == TurnStage::ThinkWithActions || old(self)@.stage
                == TurnStage::ThinkOnce,
        ensures
            final(self).wf(),
            waits_for(final(self)@.stage, r@),
            steps_left(final(self)@) < steps_left(old(self)@),
            (final(self)@, r@) == after_thought(old(self)@, outcome),
    {
        let with_actions = match self.stage {
            TurnStage::ThinkWithActions => true,
            _ => false,
        };
        match outcome {
            Err(e) => {
                let text = recovery_fallback_reply_for_error(&e);
                if with_actions && text.as_str().is_empty() {
                    self.thought = None;
                } else {
                    self.thought = Some(text);
                }
                self.settle()
            },
            Ok(ThinkOutcome::NoReply) => self.settle(),
            Ok(ThinkOutcome::Reply(text)) => if with_actions {
                if !text.as_str().is_empty() {
                    self.thought = Some(text);
                }
                self.settle()
            } else {
                self.stage = TurnStage::JournalThought;
                TurnRequest::Journal { step: self.step_with("-think"), text }
            },
            Ok(ThinkOutcome::Suspended { approval_id, redacted_summary }) => {
                let payload = concat3(approval_id.as_str(), "|", redacted_summary.as_str());
                self.suspension = Some((approval_id, redacted_summary));
                if with_actions {
                    self.settle()
                } else {
                    self.stage = TurnStage::JournalSuspension;
                    TurnRequest::Journal { step: self.step_with("-suspend"), text: payload }
                }
            },
        }
    }

    /// Takes the text that the journal gave back, or its error.
    pub fn on_journaled(&mut self, stored: Result<String, String>) -> (r: TurnRequest)
        requires
            old(self).wf(),
            old(self)@.stage == TurnStage::JournalFast || old(self)@.stage
                == TurnStage::JournalQuiet || old(self)@.stage == TurnStage::JournalThought
                || old(self)@.stage == TurnStage::JournalSuspension,
        ensures
            final(self).wf(),
            waits_for(final(self)@.stage, r@),
            steps_left(final(self)@) < steps_left(old(self)@),
            (final(self)@, r@) == after_journal(
                old(self)@,
                match stored {
                    Ok(t) => Ok(t@),
                    Err(e) => Err(e@),
                },
            ),
    {
        let reads = match self.stage {
            TurnStage::JournalQuiet => true,
            TurnStage::JournalThought => true,
            _ => false,
        };
        if reads {
            self.thought = match stored {
                Ok(text) => if text.as_str().is_empty() {
                    None
                } else {
                    Some(text)
                },
                Err(_) => None,
            };
        }
        self.settle()
    }

    /// Takes the decision of the governor, if there is one, and whether the turn is still
    /// replayed. The turn is over.
    pub fn on_settled(&mut self, decision: ActionDecision, replaying: bool) -> (r: TurnRequest)
        requires
            old(self).wf(),
            old(self)@.stage == TurnStage::Settle,
            old(self)@.setup.turn < u64::MAX,
        ensures
            final(self).wf(),
            waits_for(final(self)@.stage, r@),
            steps_left(final(self)@) < steps_left(old(self)@),
            (final(self)@, r@) == after_settle(old(self)@, decision, replaying),
    {
        self.stage = TurnStage::Done;
        let silenced = self.setup.has_governor && match decision {
            ActionDecision::Hesitate => true,
            ActionDecision::Reflect => true,
            _ => false,
        };
        let spoken: Option<String> = match &self.thought {
            Some(t) => if t.as_str().is_empty() {
                None
            } else {
                Some(copy_of(t.as_str()))
            },
            None => None,
        };
        let summary = match (&spoken, &self.suspension) {
            (Some(t), _) => concat3(
                self.summary.as_str(),
                " | thought: ",
                take_chars(t.as_str(), 160).as_str(),
            ),
            (None, Some((id, s))) => concat5(
                self.summary.as_str(),
                " | suspended(approval=",
                id.as_str(),
                "): ",
                s.as_str(),
            ),
            (None, None) => copy_of(self.summary.as_str()),
        };
        let text: Option<String> = match spoken {
            Some(t) => Some(t),
            None => match &self.suspension {
                Some((id, s)) => Some(suspended_approval_user_reply(id.as_str(), s.as_str())),
                None => None,
            },
        };
        let outbound = if replaying || silenced {
            None
        } else {
            match text {
                Some(t) => match reply_target(&self.setup.origin, &self.setup.reply_target) {
                    Some(target) => if target.as_str().is_empty() || t.as_str().is_empty() {
                        None
                    } else {
                        Some((target, t))
                    },
                    None => None,
                },
                None => None,
            }
        };
        TurnRequest::Finish {
            history: if replaying {
                None
            } else {
                crate::llm::copy_opt(&self.thought)
            },
            outbound,
            suppressed: self.filtered || self.hesitates || silenced,
            summary,
            next_turn: self.setup.turn + 1,
        }
    }
}

// ---------------------------------------------------------------------------
// Laws
// ---------------------------------------------------------------------------

/// A replayed turn sends nothing and adds nothing to the history.
pub proof fn law_replay_is_silent(s: TurnState, decision: ActionDecision)
    ensures
        after_settle(s, decision, true).1->outbound is None,
        after_settle(s, decision, true).1->history is None,
{
}

/// An agent that hesitates or reflects sends nothing.
pub proof fn law_silenced_agent_sends_nothing(
    s: TurnState,
    decision: ActionDecision,
    replaying: bool,
)
    requires
        s.setup.has_governor,
        decision == ActionDecision::Hesitate || decision == ActionDecision::Reflect,
    ensures
        after_settle(s, decision, replaying).1->outbound is None,
        after_settle(s, decision, replaying).1->suppressed,
{
}

/// With a governor, neither a pulse nor a hesitating agent asks the model: whatever else
/// the message is, the thought comes from elsewhere.
pub proof fn law_governor_keeps_from_thinking(s: TurnState)
    requires
        s.filtered || s.hesitates,
    ensures
        !(to_thought(s).1 is ThinkWithActions),
        !(to_thought(s).1 is ThinkOnce),
{
}

/// A replayed turn asks the model only where the thought itself is replayed step by step:
/// without actions it comes from the journal, and no direct answer is made again.
pub proof fn law_replay_repeats_nothing(s: TurnState, decision: ActionDecision)
    requires
        s.bootstrap is None,
        s.status is None,
        s.command is None,
    ensures
        !(after_feel(s, decision, true).1 is Bootstrap),
        !(after_feel(s, decision, true).1 is Status),
        !(after_feel(s, decision, true).1 is Command),
        !(after_feel(s, decision, true).1 is ThinkOnce),
        after_feel(s, decision, true).1 is ThinkWithActions ==>
            !after_feel(s, decision, true).1->ThinkWithActions_announce,
{
}

/// A direct answer is chosen by rank: the bootstrap before a command, a command before the
/// status report, these before a question of the operator and before a brief ping.
pub proof fn law_direct_answers_have_ranks(s: TurnState)
    ensures
        s.bootstrap is Some ==> fast_reply(s) == s.bootstrap,
        s.bootstrap is None && s.command is Some ==> fast_reply(s) == s.command,
        s.bootstrap is None && s.command is None && s.status is Some ==> fast_reply(s)
            == s.status,
{
}

/// A reply and a suspension exclude each other, and the text of a suspension names nothing
/// but the approval and its summary.
pub proof fn law_reply_and_suspension_exclude_each_other(
    s: TurnState,
    outcome: Result<ThinkOutcome, FamilyClawError>,
)
    requires
        turn_valid(s),
        s.stage == TurnStage::ThinkWithActions || s.stage == TurnStage::ThinkOnce,
    ensures
        ({
            let t = after_thought(s, outcome).0;
            &&& t.thought is None || t.suspension is None
            &&& outcome is Ok && outcome->Ok_0 is Suspended ==> t.thought is None
                && t.suspension is Some
        }),
{
}

/// Where a message came from decides where its reply goes; the configured target is for
/// messages without an origin.
pub proof fn law_reply_goes_back_to_its_conversation(
    s: TurnState,
    decision: ActionDecision,
    replaying: bool,
)
    requires
        s.setup.origin is Some,
        outbound(s, decision, replaying) is Some,
    ensures
        outbound(s, decision, replaying)->Some_0.0 == s.setup.origin->Some_0.conversation@,
{
}

/// Every turn that is settled counts as one.
pub proof fn law_turns_are_counted(s: TurnState, decision: ActionDecision, replaying: bool)
    ensures
        after_settle(s, decision, replaying).1->next_turn == s.setup.turn + 1,
{
}

/// Turns of one agent are remembered under different keys.
pub proof fn law_turn_keys_differ(agent: Seq<char>, a: nat, b: nat)
    requires
        a != b,
    ensures
        turn_key(agent, a) != turn_key(agent, b),
{
    let head = agent + ":"@ + "turn-"@;
    if turn_key(agent, a) == turn_key(agent, b) {
        assert(decimal(a) =~= turn_key(agent, a).skip(head.len() as int));
        assert(decimal(b) =~= turn_key(agent, b).skip(head.len() as int));
        crate::text::lemma_decimal_injective(a, b);
    }
}

/// What a store of memories that keeps a key once holds after it was given a memory.
pub open spec fn kept_once(
    store: Map<Seq<char>, Seq<char>>,
    key: Seq<char>,
    content: Seq<char>,
) -> Map<Seq<char>, Seq<char>> {
    if store.contains_key(key) {
        store
    } else {
        store.insert(key, content)
    }
}

/// What the store holds after the first `n` of the turns, where the journal gave `recorded` of
/// each.
pub open spec fn remembered(
    store: Map<Seq<char>, Seq<char>>,
    turns: Seq<TurnState>,
    recorded: Seq<(bool, Seq<char>)>,
    n: nat,
) -> Map<Seq<char>, Seq<char>>
    decreases n,
{
    if n == 0 {
        store
    } else {
        let before = remembered(store, turns, recorded, (n - 1) as nat);
        let turn = turns[n - 1];
        match after_record(turn, Ok(recorded[n - 1])).1 {
            TurnView::Remember { turn_key } => kept_once(
                before,
                turn_key,
                match turn.setup.message.words() {
                    Some(words) => words,
                    None => Seq::empty(),
                },
            ),
            _ => before,
        }
    }
}

/// How many of the first `n` turns are to be remembered.
pub open spec fn memorable(recorded: Seq<(bool, Seq<char>)>, n: nat) -> nat
    decreases n,
{
    if n == 0 {
        0
    } else {
        memorable(recorded, (n - 1) as nat) + if recorded[n - 1].0 {
            1nat
        } else {
            0nat
        }
    }
}

proof fn lemma_remembered_stays(
    store: Map<Seq<char>, Seq<char>>,
    turns: Seq<TurnState>,
    recorded: Seq<(bool, Seq<char>)>,
    i: nat,
    n: nat,
)
    requires
        i < n,
        recorded[i as int].0,
    ensures
        remembered(store, turns, recorded, n).contains_key(
            turn_key(turns[i as int].setup.agent_name@, turns[i as int].setup.turn as nat),
        ),
    decreases n,
{
    if i < n - 1 {
        lemma_remembered_stays(store, turns, recorded, i, (n - 1) as nat);
    }
}

proof fn lemma_replay_keeps_store(
    store: Map<Seq<char>, Seq<char>>,
    turns: Seq<TurnState>,
    again: Seq<TurnState>,
    recorded: Seq<(bool, Seq<char>)>,
    n: nat,
    m: nat,
)
    requires
        m <= n,
        forall|i: int|
            0 <= i < n ==> (#[trigger] again[i]).setup.agent_name@ == turns[i].setup.agent_name@
                && again[i].setup.turn == turns[i].setup.turn,
    ensures
        remembered(remembered(store, turns, recorded, n), again, recorded, m) == remembered(
            store,
            turns,
            recorded,
            n,
        ),
    decreases m,
{
    if m > 0 {
        lemma_replay_keeps_store(store, turns, again, recorded, n, (m - 1) as nat);
        let t = again[m - 1];
        if recorded[m - 1].0 {
            lemma_remembered_stays(store, turns, recorded, (m - 1) as nat, n);
        }
    }
}

/// Turns that are replayed add nothing to a store that keeps a key once: whatever was
/// remembered by the run that is replayed, the store is the same after the replay.
pub proof fn law_replay_remembers_nothing_again(
    store: Map<Seq<char>, Seq<char>>,
    turns: Seq<TurnState>,
    again: Seq<TurnState>,
    recorded: Seq<(bool, Seq<char>)>,
    n: nat,
)
    requires
        forall|i: int|
            0 <= i < n ==> (#[trigger] again[i]).setup.agent_name@ == turns[i].setup.agent_name@
                && again[i].setup.turn == turns[i].setup.turn,
    ensures
        remembered(remembered(store, turns, recorded, n), again, recorded, n) == remembered(
            store,
            turns,
            recorded,
            n,
        ),
{
    lemma_replay_keeps_store(store, turns, again, recorded, n, n);
}

proof fn lemma_key_is_new(
    store: Map<Seq<char>, Seq<char>>,
    turns: Seq<TurnState>,
    recorded: Seq<(bool, Seq<char>)>,
    agent: Seq<char>,
    turn: nat,
    n: nat,
)
    requires
        !store.contains_key(turn_key(agent, turn)),
        forall|i: int|
            0 <= i < n ==> (#[trigger] turns[i]).setup.agent_name@ == agent && turns[i].setup.turn
                != turn,
    ensures
        !remembered(store, turns, recorded, n).contains_key(turn_key(agent, turn)),
    decreases n,
{
    if n > 0 {
        lemma_key_is_new(store, turns, recorded, agent, turn, (n - 1) as nat);
        law_turn_keys_differ(agent, turns[n - 1].setup.turn as nat, turn);
    }
}

/// A run of an agent whose turns have different numbers leaves one memory of each turn that is
/// to be remembered.
pub proof fn law_every_turn_is_remembered_once(
    store: Map<Seq<char>, Seq<char>>,
    turns: Seq<TurnState>,
    recorded: Seq<(bool, Seq<char>)>,
    agent: Seq<char>,
    n: nat,
)
    requires
        store.dom().finite(),
        forall|i: int| 0 <= i < n ==> (#[trigger] turns[i]).setup.agent_name@ == agent,
        forall|i: int, j: int|
            0 <= i < j < n ==> (#[trigger] turns[i]).setup.turn != (#[trigger] turns[j]).setup.turn,
        forall|i: int|
            0 <= i < n ==> !store.contains_key(
                turn_key(agent, (#[trigger] turns[i]).setup.turn as nat),
            ),
    ensures
        remembered(store, turns, recorded, n).dom().finite(),
        remembered(store, turns, recorded, n).dom().len() == store.dom().len() + memorable(
            recorded,
            n,
        ),
    decreases n,
{
    if n > 0 {
        law_every_turn_is_remembered_once(store, turns, recorded, agent, (n - 1) as nat);
        lemma_key_is_new(
            store,
            turns,
            recorded,
            agent,
            turns[n - 1].setup.turn as nat,
            (n - 1) as nat,
        );
    }
}

// ---------------------------------------------------------------------------
// What a turn is for
// ---------------------------------------------------------------------------

/// The agent is kept from speaking by its governor.
pub open spec fn must_be_silent(s: TurnState, decision: ActionDecision) -> bool {
    s.setup.has_governor && (decision == ActionDecision::Hesitate || decision
        == ActionDecision::Reflect)
}

/// Where the message of a turn can be answered: its own conversation, or, where it has none,
/// the configured target.
pub open spec fn is_target(s: TurnState, target: Seq<char>) -> bool {
    match s.setup.origin {
        Some(o) => target == o.conversation@,
        None => s.setup.reply_target is Some && target == s.setup.reply_target->Some_0@,
    }
}

/// The turn ends by sending `text` to `target`, keeps it in the history, and tells it in its
/// summary.
pub open spec fn ends_by_saying(
    s: TurnState,
    decision: ActionDecision,
    target: Seq<char>,
    text: Seq<char>,
) -> bool {
    let end = after_settle(s, decision, false).1;
    &&& end is Finish
    &&& end->outbound == Some((target, text))
    &&& end->history == Some(text)
    &&& s.summary.is_prefix_of(end->summary)
    &&& text.len() <= 160 ==> occurs(text, end->summary)
    &&& text.len() > 160 ==> occurs(text.take(160), end->summary)
}

proof fn lemma_settled_thought_is_said(
    s: TurnState,
    decision: ActionDecision,
    target: Seq<char>,
    text: Seq<char>,
)
    requires
        s.thought == Some(text),
        text.len() > 0,
        target.len() > 0,
        is_target(s, target),
        !must_be_silent(s, decision),
    ensures
        ends_by_saying(s, decision, target, text),
{
    let end = after_settle(s, decision, false).1;
    let head = s.summary + " | thought: "@;
    let shown = if text.len() <= 160 {
        text
    } else {
        text.take(160)
    };
    assert(end->summary =~= head + shown);
    assert(end->summary.subrange(head.len() as int, end->summary.len() as int) =~= shown);
    assert(occurs_at(shown, end->summary, head.len() as int));
    assert(end->summary.subrange(0, s.summary.len() as int) =~= s.summary);
}

/// A reply of the model reaches the user: in a turn with actions at once, in a turn without
/// them once the journal has given it back, it is sent to where the message can be answered, and
/// kept in the history.
pub proof fn law_reply_reaches_the_user(
    s: TurnState,
    outcome: ThinkOutcome,
    decision: ActionDecision,
    target: Seq<char>,
)
    requires
        s.stage == TurnStage::ThinkWithActions || s.stage == TurnStage::ThinkOnce,
        outcome is Reply,
        outcome->Reply_0@.len() > 0,
        target.len() > 0,
        is_target(s, target),
        !must_be_silent(s, decision),
    ensures
        ({
            let text = outcome->Reply_0@;
            let (t, request) = after_thought(s, Ok(outcome));
            if s.stage == TurnStage::ThinkWithActions {
                &&& request is Settle
                &&& t.stage == TurnStage::Settle
                &&& ends_by_saying(t, decision, target, text)
            } else {
                &&& request is Journal
                &&& request->Journal_text == text
                &&& t.stage == TurnStage::JournalThought
                &&& after_journal(t, Ok(text)).0.stage == TurnStage::Settle
                &&& ends_by_saying(after_journal(t, Ok(text)).0, decision, target, text)
            }
        }),
{
    let text = outcome->Reply_0@;
    let (t, request) = after_thought(s, Ok(outcome));
    if s.stage == TurnStage::ThinkWithActions {
        lemma_settled_thought_is_said(t, decision, target, text);
    } else {
        lemma_settled_thought_is_said(after_journal(t, Ok(text)).0, decision, target, text);
    }
}

/// A thought that fails does not leave the user without an answer: what the user is told of the
/// error is sent, and it is the reply that belongs to the error.
pub proof fn law_failure_reaches_the_user(
    s: TurnState,
    error: FamilyClawError,
    decision: ActionDecision,
    target: Seq<char>,
)
    requires
        s.stage == TurnStage::ThinkWithActions || s.stage == TurnStage::ThinkOnce,
        error_reply(error).len() > 0,
        target.len() > 0,
        is_target(s, target),
        !must_be_silent(s, decision),
    ensures
        after_thought(s, Err(error)).0.stage == TurnStage::Settle,
        ends_by_saying(after_thought(s, Err(error)).0, decision, target, error_reply(error)),
{
    let t = after_thought(s, Err(error)).0;
    lemma_settled_thought_is_said(t, decision, target, error_reply(error));
}

/// What is answered without the model is sent too: the replies of the bootstrap, of a command
/// and of a status report, in this order.
pub proof fn law_direct_answer_reaches_the_user(
    s: TurnState,
    decision: ActionDecision,
    stored: Result<Seq<char>, Seq<char>>,
    target: Seq<char>,
    text: Seq<char>,
)
    requires
        !s.replaying,
        text.len() > 0,
        s.bootstrap == Some(text) || s.bootstrap is None && s.command == Some(text) || s.bootstrap
            is None && s.command is None && s.status == Some(text),
        target.len() > 0,
        is_target(s, target),
        !must_be_silent(s, decision),
    ensures
        to_thought(s).1 is Journal,
        to_thought(s).1->Journal_text == text,
        to_thought(s).0.stage == TurnStage::JournalFast,
        ends_by_saying(after_journal(to_thought(s).0, stored).0, decision, target, text),
{
    let t = after_journal(to_thought(s).0, stored).0;
    lemma_settled_thought_is_said(t, decision, target, text);
}

/// A turn that waits for an approval tells the user so: the message that is sent names the
/// approval and what is to be approved; it is no reply, and the summary names both too.
pub proof fn law_suspension_reaches_the_user(
    s: TurnState,
    outcome: ThinkOutcome,
    decision: ActionDecision,
    stored: Result<Seq<char>, Seq<char>>,
    target: Seq<char>,
)
    requires
        s.stage == TurnStage::ThinkWithActions || s.stage == TurnStage::ThinkOnce,
        s.thought is None,
        outcome is Suspended,
        target.len() > 0,
        is_target(s, target),
        !must_be_silent(s, decision),
    ensures
        ({
            let id = outcome->Suspended_approval_id@;
            let what = outcome->redacted_summary@;
            let thought = after_thought(s, Ok(outcome)).0;
            let t = if s.stage == TurnStage::ThinkWithActions {
                thought
            } else {
                after_journal(thought, stored).0
            };
            let end = after_settle(t, decision, false).1;
            &&& t.stage == TurnStage::Settle
            &&& end is Finish
            &&& end->outbound is Some
            &&& end->outbound->Some_0.0 == target
            &&& occurs(id, end->outbound->Some_0.1)
            &&& occurs(what, end->outbound->Some_0.1)
            &&& end->history is None
            &&& occurs(id, end->summary)
            &&& occurs(what, end->summary)
        }),
{
    reveal_strlit("Turvapysäytys: toiminto odottaa hyväksyntää (");
    let id = outcome->Suspended_approval_id@;
    let what = outcome->redacted_summary@;
    let thought = after_thought(s, Ok(outcome)).0;
    let t = if s.stage == TurnStage::ThinkWithActions {
        thought
    } else {
        after_journal(thought, stored).0
    };
    let body = suspended_text(id, what);
    let head = "Turvapysäytys: toiminto odottaa hyväksyntää ("@;
    let middle = head + what + "). Hyväksy: APPROVE "@;
    assert(body.subrange(head.len() as int, (head.len() + what.len()) as int) =~= what);
    assert(occurs_at(what, body, head.len() as int));
    assert(body.subrange(middle.len() as int, (middle.len() + id.len()) as int) =~= id);
    assert(occurs_at(id, body, middle.len() as int));
    assert(body.len() > 0);
    let summary = final_summary(t);
    let first = t.summary + " | suspended(approval="@;
    let second = first + id + "): "@;
    assert(summary.subrange(first.len() as int, (first.len() + id.len()) as int) =~= id);
    assert(occurs_at(id, summary, first.len() as int));
    assert(summary.subrange(second.len() as int, (second.len() + what.len()) as int) =~= what);
    assert(occurs_at(what, summary, second.len() as int));
}

/// A turn in which nothing was thought and nothing waits sends nothing and keeps nothing.
pub proof fn law_silence_stays_silence(s: TurnState, decision: ActionDecision, replaying: bool)
    requires
        s.stage == TurnStage::ThinkWithActions || s.stage == TurnStage::ThinkOnce,
        s.thought is None,
        s.suspension is None,
    ensures
        ({
            let t = after_thought(s, Ok(ThinkOutcome::NoReply)).0;
            let end = after_settle(t, decision, replaying).1;
            &&& t.stage == TurnStage::Settle
            &&& end->outbound is None
            &&& end->history is None
            &&& end->summary == s.summary
        }),
{
}

/// A message is felt and thought about: where it is to be remembered, that comes first; then,
/// with a model, without a reason to stay quiet and without a direct answer, the model is
/// asked, with its tools where actions can be taken.
pub proof fn law_message_is_thought_about(s: TurnState, recorded: (bool, Seq<char>))
    ensures
        recorded.0 ==> after_record(s, Ok(recorded)).1 == (TurnView::Remember {
            turn_key: s.setup.agent_name@ + ":turn-"@ + decimal(s.setup.turn as nat),
        }),
        !recorded.0 ==> after_record(s, Ok(recorded)).1 is Feel,
        after_record(s, Ok(recorded)).0.summary == recorded.1,
        after_remember(s, None).1 is Feel,
        s.setup.has_model && !s.filtered && !s.hesitates && !s.replaying && fast_reply(s) is None
            ==> {
            &&& s.setup.has_actions ==> to_thought(s).1 == (TurnView::ThinkWithActions {
                announce: true,
            })
            &&& !s.setup.has_actions ==> to_thought(s).1 == (TurnView::ThinkOnce {
                announce: true,
            })
        },
{
    assert(":turn-"@ =~= ":"@ + "turn-"@) by {
        reveal_strlit(":turn-");
        reveal_strlit(":");
        reveal_strlit("turn-");
    }
    assert(turn_key(s.setup.agent_name@, s.setup.turn as nat) =~= s.setup.agent_name@ + ":turn-"@
        + decimal(s.setup.turn as nat));
}

/// What the operator orders in a fresh turn is done before anything is thought: an order to go
/// ahead starts the bootstrap, a question for the status a report, and a command is followed.
pub proof fn law_orders_are_followed(s: TurnState, decision: ActionDecision, reply: Seq<char>)
    requires
        s.setup.has_model,
        !s.setup.has_governor,
    ensures
        s.setup.has_actions && s.setup.asks_execute ==> after_feel(s, decision, false).1
            is Bootstrap,
        s.bootstrap is None && s.setup.asks_status && !(s.setup.has_actions
            && s.setup.asks_execute) ==> after_feel(s, decision, false).1 is Status,
        !s.replaying && s.setup.has_actions && is_command(
            s.setup.message,
            s.setup.operator,
            s.setup.origin,
            false,
        ) ==> to_command(s).1 is Command && (to_command(s).1->approve, to_command(s).1->id)
            == command_in(s.setup.message.words()->Some_0)->Some_0,
{
}

/// The prompt begins with who the agent is, and says every memory that it is given, each with
/// its relevance.
pub proof fn law_prompt_holds_the_memories(
    essence: Seq<char>,
    guard: Seq<char>,
    memories: Seq<RecalledMemory>,
    has_actions: bool,
    i: int,
)
    requires
        0 <= i < memories.len(),
    ensures
        essence.is_prefix_of(prompt_text(essence, guard, memories, has_actions)),
        occurs(guard, prompt_text(essence, guard, memories, has_actions)),
        occurs(memories[i].content@, prompt_text(essence, guard, memories, has_actions)),
        occurs(memories[i].relevance@, prompt_text(essence, guard, memories, has_actions)),
        has_actions ==> occurs(
            TOOL_CONTRACT@,
            prompt_text(essence, guard, memories, has_actions),
        ),
{
    let prompt = prompt_text(essence, guard, memories, has_actions);
    let n = essence.len() as int;
    let head = essence + guard;
    let title = "\n\n[RELEVANT MEMORIES FROM ETERNAL THREAD]:\n"@;
    let lines = memory_lines(memories, memories.len());
    let tail = "[END MEMORIES]\n"@;
    let contract = if has_actions {
        TOOL_CONTRACT@
    } else {
        Seq::empty()
    };
    assert(prompt =~= head + title + lines + tail + contract);
    assert(prompt.subrange(0, n) =~= essence);
    assert(prompt.subrange(n, n + guard.len()) =~= guard);
    assert(occurs_at(guard, prompt, n));
    let at = lemma_memory_line_at(memories, memories.len(), i);
    let line = memory_line((i + 1) as nat, memories[i]);
    let start = (head + title).len() as int + at;
    assert(prompt.subrange(start, start + line.len()) =~= lines.subrange(at, at + line.len()));
    let first = "  "@ + decimal((i + 1) as nat) + ". (relevance: "@;
    let relevance = memories[i].relevance@;
    let content = memories[i].content@;
    let second = first + relevance + ") "@;
    assert(line.subrange(first.len() as int, (first.len() + relevance.len()) as int)
        =~= relevance);
    assert(line.subrange(second.len() as int, (second.len() + content.len()) as int) =~= content);
    let r = start + first.len();
    let c = start + second.len();
    let whole = prompt.subrange(start, start + line.len());
    assert(prompt.subrange(r, r + relevance.len()) =~= whole.subrange(
        first.len() as int,
        (first.len() + relevance.len()) as int,
    ));
    assert(occurs_at(relevance, prompt, r));
    assert(prompt.subrange(c, c + content.len()) =~= whole.subrange(
        second.len() as int,
        (second.len() + content.len()) as int,
    ));
    assert(occurs_at(content, prompt, c));
    if has_actions {
        let e = (head + title + lines + tail).len() as int;
        assert(prompt.subrange(e, e + contract.len()) =~= contract);
        assert(occurs_at(contract, prompt, e));
    }
}

proof fn lemma_memory_line_at(memories: Seq<RecalledMemory>, n: nat, i: int) -> (at: int)
    requires
        0 <= i < n <= memories.len(),
    ensures
        occurs_at(memory_line((i + 1) as nat, memories[i]), memory_lines(memories, n), at),
    decreases n,
{
    let before = memory_lines(memories, (n - 1) as nat);
    let all = memory_lines(memories, n);
    let line = memory_line((i + 1) as nat, memories[i]);
    if i == n - 1 {
        let at = before.len() as int;
        assert(all.subrange(at, at + line.len()) =~= line);
        at
    } else {
        let at = lemma_memory_line_at(memories, (n - 1) as nat, i);
        assert(all.subrange(at, at + line.len()) =~= before.subrange(at, at + line.len()));
        at
    }
}

/// A known question of the operator and a call of the agent by its name are answered at once, in
/// a fresh turn in which the model may be asked; the answer is sent and kept.
pub proof fn law_quick_answer_reaches_the_user(
    s: TurnState,
    decision: ActionDecision,
    stored: Result<Seq<char>, Seq<char>>,
    target: Seq<char>,
    words: Seq<char>,
)
    requires
        s.setup.has_model,
        !s.filtered,
        !s.hesitates,
        !s.replaying,
        s.bootstrap is None,
        s.command is None,
        s.status is None,
        s.setup.message.words() == Some(words),
        target.len() > 0,
        is_target(s, target),
        !must_be_silent(s, decision),
    ensures
        ({
            let answer = answer_to_operator(words);
            let end = after_journal(to_thought(s).0, stored).0;
            from_operator(s.setup.operator, s.setup.origin) && answer is Some
                && answer->Some_0.len() > 0 ==> {
                &&& to_thought(s).1 is Journal
                &&& to_thought(s).1->Journal_text == answer->Some_0
                &&& ends_by_saying(end, decision, target, answer->Some_0)
            }
        }),
        !from_operator(s.setup.operator, s.setup.origin) && is_ping(words, s.setup.agent_name@)
            ==> {
            &&& to_thought(s).1 is Journal
            &&& occurs(s.setup.agent_name@, to_thought(s).1->Journal_text)
            &&& to_thought(s).1->Journal_text.len() > 0
            &&& ends_by_saying(
                after_journal(to_thought(s).0, stored).0,
                decision,
                target,
                to_thought(s).1->Journal_text,
            )
        },
{
    let answer = answer_to_operator(words);
    let end = after_journal(to_thought(s).0, stored).0;
    if from_operator(s.setup.operator, s.setup.origin) && answer is Some && answer->Some_0.len()
        > 0 {
        lemma_settled_thought_is_said(end, decision, target, answer->Some_0);
    }
    if !from_operator(s.setup.operator, s.setup.origin) && is_ping(words, s.setup.agent_name@) {
        let text = to_thought(s).1->Journal_text;
        let name = s.setup.agent_name@;
        reveal_strlit("Tässä! ✦ (");
        let at = "Tässä! ✦ ("@.len() as int;
        assert(text.subrange(at, at + name.len()) =~= name);
        assert(occurs_at(name, text, at));
        lemma_settled_thought_is_said(end, decision, target, text);
    }
}

/// An ordinary message of somebody else is not answered without the model: it is thought about.
pub proof fn law_ordinary_message_is_thought_about(s: TurnState)
    requires
        s.setup.has_model,
        !s.filtered,
        !s.hesitates,
        !s.replaying,
        s.bootstrap is None,
        s.command is None,
        s.status is None,
        !from_operator(s.setup.operator, s.setup.origin),
        s.setup.message.words() is None || !is_ping(
            s.setup.message.words()->Some_0,
            s.setup.agent_name@,
        ),
    ensures
        s.setup.has_actions ==> to_thought(s).1 is ThinkWithActions,
        !s.setup.has_actions ==> to_thought(s).1 is ThinkOnce,
{
}

/// Without a governor nothing keeps a message from being thought about; with one, a pulse and a
/// hesitating agent do, and nothing else.
pub proof fn law_only_the_governor_holds_back(s: TurnState, decision: ActionDecision, replaying: bool)
    ensures
        ({
            let t = after_feel(s, decision, replaying).0;
            &&& t.filtered <==> s.setup.has_governor && s.setup.message is EmotionPulse
            &&& t.hesitates <==> s.setup.has_governor && decision == ActionDecision::Hesitate
            &&& t.replaying == replaying
            &&& t.setup == s.setup
            &&& t.summary == s.summary
        }),
{
}

/// A replayed turn, and one that is kept from thinking, takes its thought from the journal; an
/// empty one there is none.
pub proof fn law_quiet_thought_comes_from_the_journal(s: TurnState, kept: Seq<char>)
    requires
        s.setup.has_model,
        fast_reply(s) is None,
        s.filtered || s.hesitates || s.replaying && !s.setup.has_actions,
        kept.len() > 0,
    ensures
        to_thought(s).1 is Journal,
        to_thought(s).1->Journal_text.len() == 0,
        after_journal(to_thought(s).0, Ok(kept)).0.thought == Some(kept),
        after_journal(to_thought(s).0, Ok(Seq::empty())).0.thought is None,
{
}

/// What keeps a turn from being written or remembered is said.
pub proof fn law_broken_turn_says_why(s: TurnState, error: Seq<char>)
    ensures
        after_record(s, Err(error)).1 is Failed,
        error.is_suffix_of(after_record(s, Err(error)).1->message),
        after_remember(s, Some(error)).1 is Failed,
        error.is_suffix_of(after_remember(s, Some(error)).1->message),
{
    let a = after_record(s, Err(error)).1->message;
    let b = after_remember(s, Some(error)).1->message;
    assert(a.subrange(a.len() - error.len(), a.len() as int) =~= error);
    assert(b.subrange(b.len() - error.len(), b.len() as int) =~= error);
}

/// The prompt of somebody else's message holds all memories that were recalled; that of the
/// operator's leaves out only those that look like roleplay.
pub proof fn law_recalled_memories_are_used(
    memories: Seq<RecalledMemory>,
    operator: Option<u64>,
    origin: Option<MessageOrigin>,
    i: int,
)
    requires
        0 <= i < memories.len(),
    ensures
        !from_operator(operator, origin) ==> recalled_for(memories, operator, origin) == memories,
        from_operator(operator, origin) && !is_roleplay_noise(lowercase(memories[i].content@))
            ==> recalled_for(memories, operator, origin).contains(memories[i]),
{
    law_filter_keeps_the_rest(memories);
}

/// With memories or without, the prompt begins with who the agent is and with the guard, and
/// ends, where actions can be taken, with what a model with tools is told.
pub proof fn law_prompt_says_who_and_how(
    essence: Seq<char>,
    guard: Seq<char>,
    memories: Seq<RecalledMemory>,
    has_actions: bool,
)
    ensures
        (essence + guard).is_prefix_of(prompt_text(essence, guard, memories, has_actions)),
        has_actions ==> TOOL_CONTRACT@.is_suffix_of(
            prompt_text(essence, guard, memories, has_actions),
        ),
        !has_actions && memories.len() == 0 ==> prompt_text(essence, guard, memories, has_actions)
            == essence + guard,
{
    let p = prompt_text(essence, guard, memories, has_actions);
    let head = essence + guard;
    assert(p.subrange(0, head.len() as int) =~= head);
    if has_actions {
        assert(p.subrange(p.len() - TOOL_CONTRACT@.len(), p.len() as int) =~= TOOL_CONTRACT@);
    }
    if !has_actions && memories.len() == 0 {
        assert(p =~= head);
    }
}

/// A turn tells that it was held back exactly where it was: by a governor that kept a message
/// from being thought about or an agent from speaking.
pub proof fn law_held_back_turn_says_so(s: TurnState, decision: ActionDecision, replaying: bool)
    ensures
        after_settle(s, decision, replaying).1->suppressed <==> s.filtered || s.hesitates
            || must_be_silent(s, decision),
{
}

/// Whatever a turn writes to the journal goes under its own number, and a suspension is written
/// with its approval and what is to be approved.
pub proof fn law_turn_writes_under_its_number(s: TurnState, outcome: ThinkOutcome)
    requires
        s.stage == TurnStage::ThinkOnce,
    ensures
        ({
            let own = "turn-"@ + decimal(s.setup.turn as nat) + "-"@;
            let request = after_thought(s, Ok(outcome)).1;
            &&& to_thought(s).1 is Journal ==> own.is_prefix_of(to_thought(s).1->Journal_step)
            &&& request is Journal ==> own.is_prefix_of(request->Journal_step)
            &&& outcome is Suspended ==> {
                &&& request is Journal
                &&& outcome->Suspended_approval_id@.is_prefix_of(request->Journal_text)
                &&& outcome->redacted_summary@.is_suffix_of(request->Journal_text)
            }
        }),
{
    let own = "turn-"@ + decimal(s.setup.turn as nat) + "-"@;
    reveal_strlit("-");
    reveal_strlit("-think");
    reveal_strlit("-suspend");
    let think = turn_step(s.setup.turn as nat) + "-think"@;
    let wait = turn_step(s.setup.turn as nat) + "-suspend"@;
    assert(think.subrange(0, own.len() as int) =~= own);
    assert(wait.subrange(0, own.len() as int) =~= own);
    if outcome is Suspended {
        let id = outcome->Suspended_approval_id@;
        let about = outcome->redacted_summary@;
        let t = after_thought(s, Ok(outcome)).1->Journal_text;
        assert(t.subrange(0, id.len() as int) =~= id);
        assert(t.subrange(t.len() - about.len(), t.len() as int) =~= about);
    }
}

/// A command of the operator is answered even where nothing can be approved: that it cannot.
pub proof fn law_command_without_actions_is_answered(s: TurnState)
    requires
        !s.setup.has_actions,
        s.bootstrap is None,
        is_command(s.setup.message, s.setup.operator, s.setup.origin, s.replaying),
    ensures
        to_command(s).1 is Journal,
        to_command(s).1->Journal_text == "ActionRuntime ei ole kytketty."@,
        to_command(s).0.thought == Some("ActionRuntime ei ole kytketty."@),
{
}

} // verus!
